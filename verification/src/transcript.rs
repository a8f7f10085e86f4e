//! Transcript rendering: how each message of a conversation becomes styled
//! terminal lines, with a role gutter, markdown blocks, word wrapping and
//! boxed tool cards.
//!
//! Display widths come from `unicode-width` and markdown structure from
//! `pulldown-cmark`; both enter through the trusted items at the end of this
//! file, and everything built from their results is verified here.

use vstd::prelude::*;
use crate::state::{Message, MessageKind, Role};
use crate::text::{
    collapse_whitespace, collapse_ws, decimal, decimal_chars, from_chars, join, join_chars,
    lines, lines_of, push_all, push_repeat, push_str, repeat, to_chars, trim, trim_chars, views,
    words, words_of,
};
use pulldown_cmark::{Event, Options, Parser, Tag, TagEnd};
use unicode_width::{UnicodeWidthChar, UnicodeWidthStr};

verus! {

broadcast use vstd::string::group_string_axioms;

// ----------------------------------------------------------------------------
// Styles, spans and lines
// ----------------------------------------------------------------------------

/// A foreground shade of the transcript palette.
#[derive(Clone, Copy, Debug, PartialEq, Eq, Structural)]
pub enum Shade {
    White,
    Gray,
    DarkGray,
}

/// A text style: a shade and the modifiers added to it.
#[derive(Clone, Copy, Debug, PartialEq, Eq, Structural)]
pub struct TextStyle {
    pub shade: Shade,
    pub bold: bool,
    pub italic: bool,
    pub crossed_out: bool,
    pub underlined: bool,
}

/// A style with no modifier.
#[verifier::allow_in_spec]
pub fn plain(shade: Shade) -> TextStyle
    returns
        (TextStyle { shade, bold: false, italic: false, crossed_out: false, underlined: false }),
{
    TextStyle { shade, bold: false, italic: false, crossed_out: false, underlined: false }
}

/// The user's label: white and bold.
#[verifier::allow_in_spec]
pub fn user_style() -> TextStyle
    returns
        (TextStyle { shade: Shade::White, bold: true, italic: false, crossed_out: false, underlined: false }),
{
    TextStyle { shade: Shade::White, bold: true, italic: false, crossed_out: false, underlined: false }
}

/// Model text: gray.
#[verifier::allow_in_spec]
pub fn model_style() -> TextStyle
    returns
        plain(Shade::Gray),
{
    plain(Shade::Gray)
}

/// Muted text (activity, thoughts, rules): dark gray.
#[verifier::allow_in_spec]
pub fn muted_style() -> TextStyle
    returns
        plain(Shade::DarkGray),
{
    plain(Shade::DarkGray)
}

/// Code: gray.
#[verifier::allow_in_spec]
pub fn code_style() -> TextStyle
    returns
        plain(Shade::Gray),
{
    plain(Shade::Gray)
}

/// Headings: white and bold.
#[verifier::allow_in_spec]
pub fn heading_style() -> TextStyle
    returns
        user_style(),
{
    user_style()
}

/// Tool cards: dark gray.
#[verifier::allow_in_spec]
pub fn tool_style() -> TextStyle
    returns
        plain(Shade::DarkGray),
{
    plain(Shade::DarkGray)
}

/// A span of text; a span without a style is drawn unstyled.
#[derive(Debug)]
pub struct StyledSpan {
    pub text: String,
    pub style: Option<TextStyle>,
}

/// The content of a span.
pub type SpanView = (Seq<char>, Option<TextStyle>);

/// The content of a line: its spans, left to right.
pub type LineView = Seq<SpanView>;

impl View for StyledSpan {
    type V = SpanView;

    open spec fn view(&self) -> SpanView {
        (self.text@, self.style)
    }
}

/// One terminal line; a line without spans is blank.
#[derive(Debug)]
pub struct StyledLine {
    pub spans: Vec<StyledSpan>,
}

impl View for StyledLine {
    type V = LineView;

    open spec fn view(&self) -> LineView {
        self.spans@.map_values(|s: StyledSpan| s@)
    }
}

/// The contents of a sequence of lines.
pub open spec fn line_views(lines: Seq<StyledLine>) -> Seq<LineView> {
    lines.map_values(|l: StyledLine| l@)
}

/// A blank line.
fn blank_line() -> (line: StyledLine)
    ensures
        line@ == Seq::<SpanView>::empty(),
{
    let spans: Vec<StyledSpan> = Vec::new();
    let line = StyledLine { spans };
    assert(line@ =~= Seq::<SpanView>::empty());
    line
}

/// A span holding `text`.
fn span_of(text: &Vec<char>, style: Option<TextStyle>) -> (span: StyledSpan)
    ensures
        span@ == (text@, style),
{
    StyledSpan { text: from_chars(text.as_slice()), style }
}

/// A line of one span.
fn single_span_line(text: &Vec<char>, style: Option<TextStyle>) -> (line: StyledLine)
    ensures
        line@ == seq![(text@, style)],
{
    let mut spans: Vec<StyledSpan> = Vec::new();
    spans.push(span_of(text, style));
    let line = StyledLine { spans };
    assert(line@ =~= seq![(text@, style)]);
    line
}

/// A line of two spans.
fn two_span_line(
    first: &Vec<char>,
    first_style: Option<TextStyle>,
    second: &Vec<char>,
    second_style: Option<TextStyle>,
) -> (line: StyledLine)
    ensures
        line@ == seq![(first@, first_style), (second@, second_style)],
{
    let mut spans: Vec<StyledSpan> = Vec::new();
    spans.push(span_of(first, first_style));
    spans.push(span_of(second, second_style));
    let line = StyledLine { spans };
    assert(line@ =~= seq![(first@, first_style), (second@, second_style)]);
    line
}

// ----------------------------------------------------------------------------
// Widths and clipping
// ----------------------------------------------------------------------------

/// `a - b`, or 0 where `b` is larger (`usize::saturating_sub`).
pub open spec fn less(a: int, b: int) -> nat {
    if a > b {
        (a - b) as nat
    } else {
        0
    }
}

/// The columns a character takes when clipping: control characters
/// (which have no width) take none.
pub open spec fn char_columns(c: char) -> nat {
    match char_width_of(c) {
        Some(w) => w as nat,
        None => 0,
    }
}

/// The longest prefix of `s` whose characters fit in `budget` columns.
pub open spec fn clip_within(s: Seq<char>, budget: int) -> Seq<char>
    decreases s.len(),
{
    if s.len() == 0 {
        Seq::<char>::empty()
    } else if char_columns(s[0]) > budget {
        Seq::<char>::empty()
    } else {
        seq![s[0]] + clip_within(s.drop_first(), budget - char_columns(s[0]))
    }
}

/// `value` cut to `width` columns, counting at least one column.
pub open spec fn clipped(value: Seq<char>, width: nat) -> Seq<char> {
    clip_within(value, if width == 0 { 1 } else { width as int })
}

/// Cuts `value` to the characters that fit in `width` columns (at least
/// one column).
pub fn clip_to_width(value: &Vec<char>, width: usize) -> (result: Vec<char>)
    ensures
        result@ == clipped(value@, width as nat),
{
    let limit: usize = if width == 0 { 1 } else { width };
    let mut used: usize = 0;
    let mut result: Vec<char> = Vec::new();
    let mut i: usize = 0;
    assert(value@.skip(0) =~= value@);
    assert(result@ + clip_within(value@, limit as int) =~= clip_within(value@, limit as int));
    while i < value.len()
        invariant
            i <= value.len(),
            used <= limit,
            result@ + clip_within(value@.skip(i as int), limit - used) == clipped(
                value@,
                width as nat,
            ),
        decreases value.len() - i,
    {
        let c = value[i];
        let w: usize = match char_width(c) {
            Some(w) => w,
            None => 0,
        };
        let ghost rest = value@.skip(i as int);
        assert(rest[0] == c);
        assert(rest.drop_first() =~= value@.skip(i + 1));
        if w > limit - used {
            assert(clip_within(rest, limit - used) =~= Seq::<char>::empty());
            assert(result@ + Seq::<char>::empty() =~= result@);
            return result;
        }
        let ghost before = result@;
        result.push(c);
        used = used + w;
        i = i + 1;
        assert(before + clip_within(rest, limit - (used - w)) =~= result@ + clip_within(
            value@.skip(i as int),
            limit - used,
        ));
    }
    assert(value@.skip(i as int) =~= Seq::<char>::empty());
    assert(result@ + Seq::<char>::empty() =~= result@);
    result
}


/// The columns the characters of `s` take, one by one.
pub open spec fn char_columns_sum(s: Seq<char>) -> nat
    decreases s.len(),
{
    if s.len() == 0 {
        0
    } else {
        char_columns(s[0]) + char_columns_sum(s.drop_first())
    }
}

proof fn lemma_clip_within(s: Seq<char>, budget: int)
    requires
        budget >= 0,
    ensures
        clip_within(s, budget).len() <= s.len(),
        s.take(clip_within(s, budget).len() as int) == clip_within(s, budget),
        char_columns_sum(clip_within(s, budget)) <= budget,
    decreases s.len(),
{
    if s.len() > 0 && char_columns(s[0]) <= budget {
        let rest = clip_within(s.drop_first(), budget - char_columns(s[0]));
        lemma_clip_within(s.drop_first(), budget - char_columns(s[0]));
        let c = seq![s[0]] + rest;
        assert(c.drop_first() =~= rest);
        assert(s.take(c.len() as int) =~= c);
    } else {
        assert(s.take(0) =~= Seq::<char>::empty());
    }
}

/// Clipping keeps a prefix of the text, whose characters take at most the
/// columns asked for (at least one).
pub proof fn law_clipping_keeps_a_prefix_that_fits(value: Seq<char>, width: nat)
    ensures
        value.take(clipped(value, width).len() as int) == clipped(value, width),
        char_columns_sum(clipped(value, width)) <= if width == 0 {
            1
        } else {
            width
        },
{
    lemma_clip_within(value, if width == 0 { 1 } else { width as int });
}
// ----------------------------------------------------------------------------
// Names and counts on tool cards
// ----------------------------------------------------------------------------

/// Underscores and dashes read as spaces.
pub open spec fn dashes_as_spaces(s: Seq<char>) -> Seq<char> {
    s.map_values(|c: char| if c == '_' || c == '-' { ' ' } else { c })
}

/// An identifier as words: trimmed, `_` and `-` read as spaces, whitespace
/// runs collapsed to one space.
pub open spec fn humanized(value: Seq<char>) -> Seq<char> {
    collapse_ws(dashes_as_spaces(trim(value)))
}

/// Renders an identifier as words (`list_directory` reads `list directory`).
pub fn humanize_identifier(value: &Vec<char>) -> (result: Vec<char>)
    ensures
        result@ == humanized(value@),
{
    let t = trim_chars(value);
    let mut spaced: Vec<char> = Vec::new();
    let mut i: usize = 0;
    while i < t.len()
        invariant
            i <= t.len(),
            spaced@ == dashes_as_spaces(t@.take(i as int)),
        decreases t.len() - i,
    {
        let c = t[i];
        if c == '_' || c == '-' {
            spaced.push(' ');
        } else {
            spaced.push(c);
        }
        i = i + 1;
        assert(spaced@ =~= dashes_as_spaces(t@.take(i as int)));
    }
    assert(t@.take(i as int) =~= t@);
    collapse_whitespace(&spaced)
}

/// A word with its first character in upper case.
pub open spec fn capitalized(word: Seq<char>) -> Seq<char> {
    if word.len() == 0 {
        Seq::<char>::empty()
    } else {
        uppercase_of(word[0]) + word.drop_first()
    }
}

/// Puts the first character of `word` in upper case.
pub fn capitalize_word(word: &Vec<char>) -> (result: Vec<char>)
    ensures
        result@ == capitalized(word@),
{
    if word.len() == 0 {
        return Vec::new();
    }
    let mut result = uppercase(word[0]);
    let mut i: usize = 1;
    let ghost head = result@;
    while i < word.len()
        invariant
            1 <= i <= word.len(),
            head == uppercase_of(word@[0]),
            result@ == head + word@.subrange(1, i as int),
        decreases word.len() - i,
    {
        result.push(word[i]);
        i = i + 1;
        assert(result@ =~= head + word@.subrange(1, i as int));
    }
    assert(word@.subrange(1, i as int) =~= word@.drop_first());
    result
}

/// Each word of the humanized value capitalized, joined by single spaces.
pub open spec fn title_cased(value: Seq<char>) -> Seq<char> {
    join(words(humanized(value)).map_values(|w: Seq<char>| capitalized(w)), seq![' '])
}

/// Renders an identifier as capitalized words (`list_directory` reads
/// `List Directory`).
pub fn title_case_words(value: &Vec<char>) -> (result: Vec<char>)
    ensures
        result@ == title_cased(value@),
{
    let h = humanize_identifier(value);
    let ws = words_of(&h);
    let mut caps: Vec<Vec<char>> = Vec::new();
    let mut i: usize = 0;
    while i < ws.len()
        invariant
            i <= ws.len(),
            views(ws@) == words(h@),
            views(caps@) == views(ws@).take(i as int).map_values(|w: Seq<char>| capitalized(w)),
        decreases ws.len() - i,
    {
        let c = capitalize_word(&ws[i]);
        let ghost before = views(caps@);
        caps.push(c);
        i = i + 1;
        assert(views(caps@) =~= before.push(c@));
        assert(views(ws@).take(i as int) =~= views(ws@).take(i - 1).push(ws@[i - 1]@));
        assert(views(caps@) =~= views(ws@).take(i as int).map_values(
            |w: Seq<char>| capitalized(w),
        ));
    }
    assert(views(ws@).take(i as int) =~= views(ws@));
    let mut sep: Vec<char> = Vec::new();
    sep.push(' ');
    assert(sep@ =~= seq![' ']);
    join_chars(&caps, &sep)
}

/// The title of a tool card: the tool's name as capitalized words, or a
/// neutral phrase when the name has none.
pub open spec fn tool_title_text(name: Seq<char>) -> Seq<char> {
    let title = title_cased(humanized(name));
    if title.len() == 0 {
        "Completed requested action"@
    } else {
        title
    }
}

/// The title of the card of tool `name`.
pub fn tool_title(name: &Vec<char>) -> (result: Vec<char>)
    ensures
        result@ == tool_title_text(name@),
{
    let h = humanize_identifier(name);
    let title = title_case_words(&h);
    if title.len() == 0 {
        to_chars("Completed requested action")
    } else {
        title
    }
}

/// `count` followed by the singular or the plural noun.
pub open spec fn count_text(count: nat, singular: Seq<char>, plural: Seq<char>) -> Seq<char> {
    decimal(count) + seq![' '] + if count == 1 {
        singular
    } else {
        plural
    }
}

/// Writes `count` with its noun (`1 item`, `3 items`).
pub fn count_label(count: usize, singular: &str, plural: &str) -> (result: Vec<char>)
    ensures
        result@ == count_text(count as nat, singular@, plural@),
{
    let mut result = decimal_chars(count as u64);
    result.push(' ');
    if count == 1 {
        push_str(&mut result, singular);
    } else {
        push_str(&mut result, plural);
    }
    result
}

/// The number of lines of `value` as `str::lines` counts them.
pub open spec fn line_total(value: Seq<char>) -> nat {
    if value.len() == 0 {
        0
    } else {
        lines(value).len()
    }
}

/// Counts the lines of `value`.
pub fn line_count(value: &Vec<char>) -> (result: usize)
    ensures
        result == line_total(value@),
{
    if value.len() == 0 {
        0
    } else {
        let ls = lines_of(value);
        ls.len()
    }
}

// ----------------------------------------------------------------------------
// Word wrapping
// ----------------------------------------------------------------------------

/// A run of text in one style, before it is wrapped into lines.
#[derive(Debug)]
pub struct InlineText {
    pub text: Vec<char>,
    pub style: TextStyle,
}

impl View for InlineText {
    type V = (Seq<char>, TextStyle);

    open spec fn view(&self) -> (Seq<char>, TextStyle) {
        (self.text@, self.style)
    }
}

/// The contents of a sequence of runs.
pub open spec fn inline_views(runs: Seq<InlineText>) -> Seq<(Seq<char>, TextStyle)> {
    runs.map_values(|r: InlineText| r@)
}

/// Whether `c` ends a piece: a line feed, or any whitespace.
pub open spec fn ends_piece(c: char, at_newline: bool) -> bool {
    if at_newline {
        c == '\n'
    } else {
        crate::text::is_ws(c)
    }
}

/// The pieces of `s`, each ended by a separator except perhaps the last
/// (`str::split_inclusive`); an empty text has no piece.
pub open spec fn split_after(s: Seq<char>, at_newline: bool) -> Seq<Seq<char>>
    decreases s.len(),
{
    if s.len() == 0 {
        Seq::<Seq<char>>::empty()
    } else {
        let prev = split_after(s.drop_last(), at_newline);
        if prev.len() == 0 || ends_piece(prev.last().last(), at_newline) {
            prev.push(seq![s.last()])
        } else {
            prev.update(prev.len() - 1, prev.last().push(s.last()))
        }
    }
}

/// Splits `s` after each separator.
fn split_after_chars(s: &Vec<char>, at_newline: bool) -> (result: Vec<Vec<char>>)
    ensures
        views(result@) == split_after(s@, at_newline),
{
    let mut pieces: Vec<Vec<char>> = Vec::new();
    let mut i: usize = 0;
    while i < s.len()
        invariant
            i <= s.len(),
            views(pieces@) == split_after(s@.take(i as int), at_newline),
            forall|k: int| 0 <= k < pieces.len() ==> #[trigger] pieces@[k]@.len() > 0,
        decreases s.len() - i,
    {
        let c = s[i];
        let ghost before = views(pieces@);
        assert(s@.take(i + 1).drop_last() =~= s@.take(i as int));
        let start_new = if pieces.len() == 0 {
            true
        } else {
            let last = &pieces[pieces.len() - 1];
            let e = last[last.len() - 1];
            if at_newline {
                e == '\n'
            } else {
                crate::text::is_whitespace(e)
            }
        };
        if start_new {
            let mut piece: Vec<char> = Vec::new();
            piece.push(c);
            pieces.push(piece);
            assert(views(pieces@) =~= before.push(seq![c]));
        } else {
            let k = pieces.len() - 1;
            let mut piece = pieces.remove(k);
            piece.push(c);
            pieces.push(piece);
            assert(views(pieces@) =~= before.update(before.len() - 1, before.last().push(c)));
        }
        i = i + 1;
    }
    assert(s@.take(i as int) =~= s@);
    pieces
}

/// The columns left for text after `prefix`, at least one.
pub open spec fn room_after(width: nat, prefix: Seq<char>) -> nat {
    let left = less(width as int, display_width_of(prefix) as int);
    if left == 0 {
        1
    } else {
        left
    }
}

/// Computes [`room_after`].
fn available_width(width: usize, prefix: &Vec<char>) -> (result: usize)
    ensures
        result == room_after(width as nat, prefix@),
{
    let w = display_width(prefix);
    if width > w && width - w > 0 {
        width - w
    } else {
        1
    }
}

/// A line made of a prefix span and the runs, each in its own style.
pub open spec fn inline_line(
    runs: Seq<(Seq<char>, TextStyle)>,
    prefix: Seq<char>,
    prefix_style: Option<TextStyle>,
) -> LineView {
    seq![(prefix, prefix_style)] + runs.map_values(
        |r: (Seq<char>, TextStyle)| (r.0, Some(r.1)),
    )
}

/// Builds the line of [`inline_line`].
fn line_from_inline(runs: &Vec<InlineText>, prefix: &Vec<char>, prefix_style: Option<TextStyle>) -> (line: StyledLine)
    ensures
        line@ == inline_line(inline_views(runs@), prefix@, prefix_style),
{
    let mut spans: Vec<StyledSpan> = Vec::new();
    spans.push(span_of(prefix, prefix_style));
    let ghost head = seq![(prefix@, prefix_style)];
    assert(spans@.map_values(|s: StyledSpan| s@) =~= head);
    let mut i: usize = 0;
    while i < runs.len()
        invariant
            i <= runs.len(),
            spans@.map_values(|s: StyledSpan| s@) == head + inline_views(runs@).take(
                i as int,
            ).map_values(|r: (Seq<char>, TextStyle)| (r.0, Some(r.1))),
        decreases runs.len() - i,
    {
        let ghost before = spans@.map_values(|s: StyledSpan| s@);
        spans.push(span_of(&runs[i].text, Some(runs[i].style)));
        assert(spans@.map_values(|s: StyledSpan| s@) =~= before.push(
            (runs@[i as int].text@, Some(runs@[i as int].style)),
        ));
        i = i + 1;
        assert(inline_views(runs@).take(i as int) =~= inline_views(runs@).take(i - 1).push(
            runs@[i - 1]@,
        ));
        assert(spans@.map_values(|s: StyledSpan| s@) =~= head + inline_views(runs@).take(
            i as int,
        ).map_values(|r: (Seq<char>, TextStyle)| (r.0, Some(r.1))));
    }
    assert(inline_views(runs@).take(i as int) =~= inline_views(runs@));
    StyledLine { spans }
}

/// The prefixes and style a wrapped block is drawn with.
pub struct WrapFrame {
    pub first_prefix: Seq<char>,
    pub continuation_prefix: Seq<char>,
    pub prefix_style: TextStyle,
    pub continuation_room: nat,
}

/// Where wrapping stands: the lines drawn, the runs of the open line, the
/// columns they take and the columns the open line has.
pub struct WrapState {
    pub lines: Seq<LineView>,
    pub current: Seq<(Seq<char>, TextStyle)>,
    pub used: nat,
    pub room: nat,
}

/// Closes the open line: the first line gets the first prefix in the
/// prefix style, later ones the continuation prefix unstyled.
pub open spec fn close_line(s: WrapState, f: WrapFrame) -> WrapState {
    let first = s.lines.len() == 0;
    let line = inline_line(
        s.current,
        if first {
            f.first_prefix
        } else {
            f.continuation_prefix
        },
        if first {
            Some(f.prefix_style)
        } else {
            None
        },
    );
    WrapState {
        lines: s.lines.push(line),
        current: Seq::<(Seq<char>, TextStyle)>::empty(),
        used: 0,
        room: f.continuation_room,
    }
}

/// Places one word: a word that would overflow a non-empty line starts a
/// new one.
pub open spec fn place_word(s: WrapState, f: WrapFrame, word: Seq<char>, style: TextStyle) -> WrapState {
    let w = display_width_of(word) as nat;
    let s1 = if s.used > 0 && s.used + w > s.room {
        close_line(s, f)
    } else {
        s
    };
    if word.len() > 0 {
        WrapState { current: s1.current.push((word, style)), used: s1.used + w, ..s1 }
    } else {
        s1
    }
}

/// Places the words of one piece in turn.
pub open spec fn place_words(
    s: WrapState,
    f: WrapFrame,
    words: Seq<Seq<char>>,
    style: TextStyle,
) -> WrapState
    decreases words.len(),
{
    if words.len() == 0 {
        s
    } else {
        place_word(place_words(s, f, words.drop_last(), style), f, words.last(), style)
    }
}

/// `part` without its ending line feed.
pub open spec fn without_newline(part: Seq<char>) -> Seq<char> {
    if part.len() > 0 && part.last() == '\n' {
        part.drop_last()
    } else {
        part
    }
}

/// Places one line-feed-ended piece: its words, then a line break when it
/// ended with a line feed.
pub open spec fn place_part(s: WrapState, f: WrapFrame, part: Seq<char>, style: TextStyle) -> WrapState {
    let s1 = place_words(s, f, split_after(without_newline(part), false), style);
    if part.len() > 0 && part.last() == '\n' {
        close_line(s1, f)
    } else {
        s1
    }
}

/// Places the pieces of one run in turn.
pub open spec fn place_parts(
    s: WrapState,
    f: WrapFrame,
    parts: Seq<Seq<char>>,
    style: TextStyle,
) -> WrapState
    decreases parts.len(),
{
    if parts.len() == 0 {
        s
    } else {
        place_part(place_parts(s, f, parts.drop_last(), style), f, parts.last(), style)
    }
}

/// Places the runs in turn.
pub open spec fn place_runs(s: WrapState, f: WrapFrame, runs: Seq<(Seq<char>, TextStyle)>) -> WrapState
    decreases runs.len(),
{
    if runs.len() == 0 {
        s
    } else {
        let r = runs.last();
        place_parts(place_runs(s, f, runs.drop_last()), f, split_after(r.0, true), r.1)
    }
}

/// The lines of runs wrapped to `width` columns behind the prefixes: the
/// open line is closed at the end when it holds a run or when no line was
/// drawn.
pub open spec fn wrapped(
    runs: Seq<(Seq<char>, TextStyle)>,
    width: nat,
    first_prefix: Seq<char>,
    continuation_prefix: Seq<char>,
    prefix_style: TextStyle,
) -> Seq<LineView> {
    let f = WrapFrame {
        first_prefix,
        continuation_prefix,
        prefix_style,
        continuation_room: room_after(width, continuation_prefix),
    };
    let start = WrapState {
        lines: Seq::<LineView>::empty(),
        current: Seq::<(Seq<char>, TextStyle)>::empty(),
        used: 0,
        room: room_after(width, first_prefix),
    };
    let end = place_runs(start, f, runs);
    if end.current.len() > 0 || end.lines.len() == 0 {
        close_line(end, f).lines
    } else {
        end.lines
    }
}

/// The prefixes and style of a wrapped block, as values.
struct Framing {
    first_prefix: Vec<char>,
    continuation_prefix: Vec<char>,
    prefix_style: TextStyle,
    continuation_room: usize,
}

impl View for Framing {
    type V = WrapFrame;

    closed spec fn view(&self) -> WrapFrame {
        WrapFrame {
            first_prefix: self.first_prefix@,
            continuation_prefix: self.continuation_prefix@,
            prefix_style: self.prefix_style,
            continuation_room: self.continuation_room as nat,
        }
    }
}

/// The wrapping state held by [`wrap_inline`].
struct Wrapper {
    lines: Vec<StyledLine>,
    current: Vec<InlineText>,
    used: usize,
    room: usize,
}

impl Wrapper {
    spec fn state(&self) -> WrapState {
        WrapState {
            lines: line_views(self.lines@),
            current: inline_views(self.current@),
            used: self.used as nat,
            room: self.room as nat,
        }
    }

    fn close(&mut self, f: &Framing)
        ensures
            final(self).state() == close_line(old(self).state(), f@),
    {
        let first = self.lines.len() == 0;
        let line = if first {
            line_from_inline(&self.current, &f.first_prefix, Some(f.prefix_style))
        } else {
            line_from_inline(&self.current, &f.continuation_prefix, None)
        };
        let ghost before = line_views(self.lines@);
        self.lines.push(line);
        assert(line_views(self.lines@) =~= before.push(line@));
        self.current = Vec::new();
        self.used = 0;
        self.room = f.continuation_room;
        assert(inline_views(self.current@) =~= Seq::<(Seq<char>, TextStyle)>::empty());
    }

    fn place(&mut self, f: &Framing, word: &Vec<char>, style: TextStyle)
        ensures
            final(self).state() == place_word(old(self).state(), f@, word@, style),
    {
        let w = display_width(word);
        if self.used > 0 && (self.used > self.room || w > self.room - self.used) {
            self.close(f);
        }
        if word.len() > 0 {
            let ghost before = inline_views(self.current@);
            let copy = crate::text::slice_chars(word, 0, word.len());
            assert(copy@ =~= word@);
            self.current.push(InlineText { text: copy, style });
            assert(inline_views(self.current@) =~= before.push((word@, style)));
            self.used = self.used + w;
        }
    }
}

/// Wraps runs to `width` columns behind the first and continuation
/// prefixes, breaking at whitespace and at line feeds.
pub fn wrap_inline(
    runs: &Vec<InlineText>,
    width: usize,
    first_prefix: &Vec<char>,
    continuation_prefix: &Vec<char>,
    prefix_style: TextStyle,
) -> (lines: Vec<StyledLine>)
    ensures
        line_views(lines@) == wrapped(
            inline_views(runs@),
            width as nat,
            first_prefix@,
            continuation_prefix@,
            prefix_style,
        ),
{
    let first_room = available_width(width, first_prefix);
    let continuation_room = available_width(width, continuation_prefix);
    let first_copy = crate::text::slice_chars(first_prefix, 0, first_prefix.len());
    let continuation_copy = crate::text::slice_chars(
        continuation_prefix,
        0,
        continuation_prefix.len(),
    );
    assert(first_copy@ =~= first_prefix@);
    assert(continuation_copy@ =~= continuation_prefix@);
    let f = Framing {
        first_prefix: first_copy,
        continuation_prefix: continuation_copy,
        prefix_style,
        continuation_room,
    };
    let mut w = Wrapper { lines: Vec::new(), current: Vec::new(), used: 0, room: first_room };
    let ghost frame = f@;
    let ghost start = w.state();
    assert(line_views(w.lines@) =~= Seq::<LineView>::empty());
    assert(inline_views(w.current@) =~= Seq::<(Seq<char>, TextStyle)>::empty());
    let mut i: usize = 0;
    while i < runs.len()
        invariant
            i <= runs.len(),
            frame == f@,
            w.state() == place_runs(start, frame, inline_views(runs@).take(i as int)),
        decreases runs.len() - i,
    {
        let run = &runs[i];
        let parts = split_after_chars(&run.text, true);
        let ghost s_i = w.state();
        let mut j: usize = 0;
        assert(views(parts@).take(0) =~= Seq::<Seq<char>>::empty());
        while j < parts.len()
            invariant
                j <= parts.len(),
                frame == f@,
                views(parts@) == split_after(run.text@, true),
                w.state() == place_parts(s_i, frame, views(parts@).take(j as int), run.style),
            decreases parts.len() - j,
        {
            let part = &parts[j];
            let n = part.len();
            let explicit = n > 0 && part[n - 1] == '\n';
            let text = if explicit {
                crate::text::slice_chars(part, 0, n - 1)
            } else {
                crate::text::slice_chars(part, 0, n)
            };
            assert(text@ =~= without_newline(part@));
            let words = split_after_chars(&text, false);
            let ghost s_j = w.state();
            let mut k: usize = 0;
            assert(views(words@).take(0) =~= Seq::<Seq<char>>::empty());
            while k < words.len()
                invariant
                    k <= words.len(),
                    frame == f@,
                    w.state() == place_words(s_j, frame, views(words@).take(k as int), run.style),
                decreases words.len() - k,
            {
                w.place(&f, &words[k], run.style);
                k = k + 1;
                assert(views(words@).take(k as int).drop_last() =~= views(words@).take(k - 1));
                assert(views(words@).take(k as int).last() == words@[k - 1]@);
            }
            assert(views(words@).take(k as int) =~= views(words@));
            if explicit {
                w.close(&f);
            }
            j = j + 1;
            assert(views(parts@).take(j as int).drop_last() =~= views(parts@).take(j - 1));
            assert(views(parts@).take(j as int).last() == parts@[j - 1]@);
        }
        assert(views(parts@).take(j as int) =~= views(parts@));
        i = i + 1;
        assert(inline_views(runs@).take(i as int).drop_last() =~= inline_views(runs@).take(i - 1));
        assert(inline_views(runs@).take(i as int).last() == runs@[i - 1]@);
    }
    assert(inline_views(runs@).take(i as int) =~= inline_views(runs@));
    if w.current.len() > 0 || w.lines.len() == 0 {
        w.close(&f);
    }
    w.lines
}

// ----------------------------------------------------------------------------
// Block prefixes and tables
// ----------------------------------------------------------------------------

/// The prefix of a block's first line: the message label before the
/// message's first block, the continuation prefix afterwards.
pub open spec fn block_prefix(label: Seq<char>, continuation: Seq<char>, local: Seq<char>, emitted: bool) -> Seq<char> {
    if !emitted {
        label + local
    } else {
        continuation + local
    }
}

/// Computes [`block_prefix`] and records that the label was emitted.
fn message_block_prefix(
    label: &Vec<char>,
    continuation: &Vec<char>,
    local: &Vec<char>,
    emitted: &mut bool,
) -> (prefix: Vec<char>)
    ensures
        prefix@ == block_prefix(label@, continuation@, local@, *old(emitted)),
        *final(emitted),
{
    let mut prefix = if !*emitted {
        crate::text::slice_chars(label, 0, label.len())
    } else {
        crate::text::slice_chars(continuation, 0, continuation.len())
    };
    push_all(&mut prefix, local);
    *emitted = true;
    assert(label@.subrange(0, label@.len() as int) =~= label@);
    assert(continuation@.subrange(0, continuation@.len() as int) =~= continuation@);
    prefix
}

/// The prefix of a block's later lines: the continuation prefix, then as
/// many spaces as the block's own prefix takes columns.
pub open spec fn block_continuation(continuation: Seq<char>, local: Seq<char>) -> Seq<char> {
    continuation + repeat(" "@, display_width_of(local) as nat)
}

/// Computes [`block_continuation`].
fn block_continuation_prefix(continuation: &Vec<char>, local: &Vec<char>) -> (result: Vec<char>)
    ensures
        result@ == block_continuation(continuation@, local@),
{
    let mut result = crate::text::slice_chars(continuation, 0, continuation.len());
    assert(result@ =~= continuation@);
    let w = display_width(local);
    push_repeat(&mut result, " ", w);
    result
}

/// The contents of rows of cells.
pub open spec fn row_views(rows: Seq<Vec<Vec<char>>>) -> Seq<Seq<Seq<char>>> {
    rows.map_values(|r: Vec<Vec<char>>| views(r@))
}

/// The number of columns: the length of the longest row.
pub open spec fn column_count(rows: Seq<Seq<Seq<char>>>) -> nat
    decreases rows.len(),
{
    if rows.len() == 0 {
        0
    } else {
        let prev = column_count(rows.drop_last());
        if rows.last().len() > prev {
            rows.last().len()
        } else {
            prev
        }
    }
}

/// The width of column `j`: the widest cell in it.
pub open spec fn column_width(rows: Seq<Seq<Seq<char>>>, j: int) -> nat
    decreases rows.len(),
{
    if rows.len() == 0 {
        0
    } else {
        let prev = column_width(rows.drop_last(), j);
        let here: nat = if 0 <= j < rows.last().len() {
            display_width_of(rows.last()[j]) as nat
        } else {
            0
        };
        if here > prev {
            here
        } else {
            prev
        }
    }
}

/// The widths of the first `n` columns added up.
pub open spec fn width_sum(rows: Seq<Seq<Seq<char>>>, n: nat) -> nat
    decreases n,
{
    if n == 0 {
        0
    } else {
        width_sum(rows, (n - 1) as nat) + column_width(rows, n - 1)
    }
}

proof fn lemma_width_sum_monotone(rows: Seq<Seq<Seq<char>>>, a: nat, b: nat)
    requires
        a <= b,
    ensures
        width_sum(rows, a) <= width_sum(rows, b),
    decreases b,
{
    if a < b {
        lemma_width_sum_monotone(rows, a, (b - 1) as nat);
    }
}

proof fn lemma_row_within_columns(rows: Seq<Seq<Seq<char>>>, r: int)
    requires
        0 <= r < rows.len(),
    ensures
        rows[r].len() <= column_count(rows),
    decreases rows.len(),
{
    if r < rows.len() - 1 {
        lemma_row_within_columns(rows.drop_last(), r);
    }
}

/// `n * 3`, at most `usize::MAX` (`usize::saturating_mul`).
pub open spec fn times_three(n: nat) -> nat {
    if n * 3 > usize::MAX {
        usize::MAX as nat
    } else {
        n * 3
    }
}

/// The columns an aligned table takes: its column widths and a three-column
/// separator between columns.
pub open spec fn table_width(rows: Seq<Seq<Seq<char>>>) -> nat {
    width_sum(rows, column_count(rows)) + less(times_three(column_count(rows)) as int, 1)
}

/// The prefix of row `i`: the first prefix on the first row.
pub open spec fn row_prefix(i: int, first_prefix: Seq<char>, continuation: Seq<char>) -> Seq<char> {
    if i == 0 {
        first_prefix
    } else {
        continuation
    }
}

/// A cell padded with spaces to the width of its column.
pub open spec fn padded_cell(rows: Seq<Seq<Seq<char>>>, j: int, cell: Seq<char>) -> Seq<char> {
    cell + repeat(" "@, less(column_width(rows, j) as int, display_width_of(cell) as int))
}

/// The lines of a table: a blank line for no row; rows joined by ` | `
/// and clipped when the aligned table does not fit behind both prefixes;
/// otherwise cells padded to their columns and joined by ` │ `.
pub open spec fn table_lines(
    rows: Seq<Seq<Seq<char>>>,
    first_prefix: Seq<char>,
    continuation: Seq<char>,
    label_style: TextStyle,
    width: nat,
) -> Seq<LineView> {
    if rows.len() == 0 {
        seq![Seq::<SpanView>::empty()]
    } else {
        let first_room = less(width as int, display_width_of(first_prefix) as int);
        let continuation_room = less(width as int, display_width_of(continuation) as int);
        let room = if first_room < continuation_room {
            first_room
        } else {
            continuation_room
        };
        if table_width(rows) > room {
            rows.map(
                |i: int, row: Seq<Seq<char>>|
                    seq![
                        (row_prefix(i, first_prefix, continuation), Some(label_style)),
                        (
                            clipped(
                                join(row, " | "@),
                                less(
                                    width as int,
                                    display_width_of(row_prefix(i, first_prefix, continuation))
                                        as int,
                                ),
                            ),
                            Some(code_style()),
                        ),
                    ],
            )
        } else {
            rows.map(
                |i: int, row: Seq<Seq<char>>|
                    seq![
                        (row_prefix(i, first_prefix, continuation), Some(label_style)),
                        (
                            join(
                                row.map(|j: int, cell: Seq<char>| padded_cell(rows, j, cell)),
                                " \u{2502} "@,
                            ),
                            Some(code_style()),
                        ),
                    ],
            )
        }
    }
}

/// Measures the columns of a table.
fn column_widths(rows: &Vec<Vec<Vec<char>>>) -> (widths: Vec<usize>)
    ensures
        widths.len() == column_count(row_views(rows@)),
        forall|j: int| 0 <= j < widths.len() ==> #[trigger] widths@[j] == column_width(row_views(rows@), j),
{
    let ghost all = row_views(rows@);
    let mut columns: usize = 0;
    let mut r: usize = 0;
    while r < rows.len()
        invariant
            r <= rows.len(),
            all == row_views(rows@),
            columns == column_count(all.take(r as int)),
        decreases rows.len() - r,
    {
        assert(all.take(r + 1).drop_last() =~= all.take(r as int));
        if rows[r].len() > columns {
            columns = rows[r].len();
        }
        r = r + 1;
    }
    assert(all.take(r as int) =~= all);
    let mut widths: Vec<usize> = Vec::new();
    let mut j: usize = 0;
    while j < columns
        invariant
            j <= columns,
            widths.len() == j,
            forall|k: int| 0 <= k < j ==> #[trigger] widths@[k] == 0,
        decreases columns - j,
    {
        widths.push(0);
        j = j + 1;
    }
    assert(all.take(0) =~= Seq::<Seq<Seq<char>>>::empty());
    let mut r: usize = 0;
    while r < rows.len()
        invariant
            r <= rows.len(),
            all == row_views(rows@),
            columns == column_count(all),
            widths.len() == columns,
            forall|k: int| 0 <= k < columns ==> #[trigger] widths@[k] == column_width(all.take(r as int), k),
        decreases rows.len() - r,
    {
        let row = &rows[r];
        proof {
            lemma_row_within_columns(all, r as int);
            assert(all[r as int] == views(row@));
        }
        let ghost next = all.take(r + 1);
        assert(next.drop_last() =~= all.take(r as int));
        assert(next.last() == views(row@));
        let mut c: usize = 0;
        while c < row.len()
            invariant
                c <= row.len() <= columns,
                widths.len() == columns,
                next.len() == r + 1,
                next.last() == views(row@),
                next.drop_last() == all.take(r as int),
                forall|k: int| 0 <= k < c ==> #[trigger] widths@[k] == column_width(next, k),
                forall|k: int| c <= k < columns ==> #[trigger] widths@[k] == column_width(all.take(r as int), k),
            decreases row.len() - c,
        {
            let w = display_width(&row[c]);
            assert(views(row@)[c as int] == row@[c as int]@);
            assert(next.last()[c as int] == row@[c as int]@);
            let ghost prev = column_width(all.take(r as int), c as int);
            assert(widths@[c as int] == prev);
            assert(column_width(next, c as int) == (if w > prev { w as nat } else { prev }));
            if w > widths[c] {
                widths.set(c, w);
            }
            assert(widths@[c as int] == column_width(next, c as int));
            c = c + 1;
        }
        assert forall|k: int| 0 <= k < columns implies #[trigger] widths@[k] == column_width(next, k) by {
            if k >= c {
                assert(!(0 <= k < next.last().len()));
            }
        }
        r = r + 1;
    }
    assert(all.take(r as int) =~= all);
    widths
}

/// Whether the aligned table is wider than `room`.
fn too_wide(rows: &Vec<Vec<Vec<char>>>, widths: &Vec<usize>, room: usize) -> (result: bool)
    requires
        widths.len() == column_count(row_views(rows@)),
        forall|j: int| 0 <= j < widths.len() ==> #[trigger] widths@[j] == column_width(row_views(rows@), j),
    ensures
        result == (table_width(row_views(rows@)) > room),
{
    let ghost all = row_views(rows@);
    let columns = widths.len();
    let tripled: usize = if columns > usize::MAX / 3 { usize::MAX } else { columns * 3 };
    let gaps: usize = if tripled > 0 { tripled - 1 } else { 0 };
    assert(gaps == less(times_three(columns as nat) as int, 1));
    if gaps > room {
        proof { lemma_width_sum_monotone(all, 0, columns as nat); }
        return true;
    }
    let mut acc: usize = gaps;
    let mut j: usize = 0;
    while j < columns
        invariant
            j <= columns == widths.len(),
            columns == column_count(all),
            all == row_views(rows@),
            forall|k: int| 0 <= k < widths.len() ==> #[trigger] widths@[k] == column_width(all, k),
            acc == gaps + width_sum(all, j as nat),
            acc <= room,
            gaps == less(times_three(columns as nat) as int, 1),
        decreases columns - j,
    {
        if widths[j] > room - acc {
            proof { lemma_width_sum_monotone(all, (j + 1) as nat, columns as nat); }
            return true;
        }
        acc = acc + widths[j];
        j = j + 1;
    }
    false
}

/// Renders the rows of a table behind the block prefixes.
fn render_table(
    rows: &Vec<Vec<Vec<char>>>,
    first_prefix: &Vec<char>,
    continuation: &Vec<char>,
    label_style: TextStyle,
    width: usize,
) -> (lines: Vec<StyledLine>)
    ensures
        line_views(lines@) == table_lines(
            row_views(rows@),
            first_prefix@,
            continuation@,
            label_style,
            width as nat,
        ),
{
    let ghost all = row_views(rows@);
    let mut lines: Vec<StyledLine> = Vec::new();
    if rows.len() == 0 {
        lines.push(blank_line());
        assert(line_views(lines@) =~= seq![Seq::<SpanView>::empty()]);
        return lines;
    }
    let widths = column_widths(rows);
    let first_width = display_width(first_prefix);
    let continuation_width = display_width(continuation);
    let first_room: usize = if width > first_width { width - first_width } else { 0 };
    let continuation_room: usize = if width > continuation_width { width - continuation_width } else { 0 };
    let room = if first_room < continuation_room { first_room } else { continuation_room };
    let narrow = too_wide(rows, &widths, room);
    let mut bar: Vec<char> = Vec::new();
    if narrow {
        push_str(&mut bar, " | ");
    } else {
        push_str(&mut bar, " \u{2502} ");
    }
    let ghost expected = table_lines(all, first_prefix@, continuation@, label_style, width as nat);
    let mut i: usize = 0;
    while i < rows.len()
        invariant
            i <= rows.len(),
            rows.len() > 0,
            all == row_views(rows@),
            widths.len() == column_count(all),
            forall|j: int| 0 <= j < widths.len() ==> #[trigger] widths@[j] == column_width(all, j),
            narrow == (table_width(all) > room),
            room == (if less(width as int, display_width_of(first_prefix@) as int) < less(width as int, display_width_of(continuation@) as int) { less(width as int, display_width_of(first_prefix@) as int) } else { less(width as int, display_width_of(continuation@) as int) }),
            bar@ == (if narrow { " | "@ } else { " \u{2502} "@ }),
            expected == table_lines(all, first_prefix@, continuation@, label_style, width as nat),
            expected.len() == rows.len(),
            line_views(lines@) == expected.take(i as int),
        decreases rows.len() - i,
    {
        let row = &rows[i];
        assert(all[i as int] == views(row@));
        let prefix = if i == 0 { first_prefix } else { continuation };
        assert(prefix@ == row_prefix(i as int, first_prefix@, continuation@));
        let text = if narrow {
            let joined = join_chars(row, &bar);
            let pw = display_width(prefix);
            let budget: usize = if width > pw { width - pw } else { 0 };
            clip_to_width(&joined, budget)
        } else {
            let mut cells: Vec<Vec<char>> = Vec::new();
            let mut c: usize = 0;
            proof { lemma_row_within_columns(all, i as int); }
            assert(views(row@).take(0).map(|j: int, cell: Seq<char>| padded_cell(all, j, cell)) =~= Seq::<Seq<char>>::empty());
            while c < row.len()
                invariant
                    c <= row.len(),
                    all.len() == rows.len(),
                    all[i as int] == views(row@),
                    i < rows.len(),
                    row.len() <= widths.len(),
                    forall|j: int| 0 <= j < widths.len() ==> #[trigger] widths@[j] == column_width(all, j),
                    views(cells@) == views(row@).take(c as int).map(|j: int, cell: Seq<char>| padded_cell(all, j, cell)),
                decreases row.len() - c,
            {
                let mut cell = crate::text::slice_chars(&row[c], 0, row[c].len());
                assert(cell@ =~= row@[c as int]@);
                let cw = display_width(&row[c]);
                let pad: usize = if widths[c] > cw { widths[c] - cw } else { 0 };
                push_repeat(&mut cell, " ", pad);
                let ghost before = views(cells@);
                cells.push(cell);
                assert(views(cells@) =~= before.push(padded_cell(all, c as int, row@[c as int]@)));
                c = c + 1;
                assert(views(row@).take(c as int) =~= views(row@).take(c - 1).push(row@[c - 1]@));
                assert(views(cells@) =~= views(row@).take(c as int).map(|j: int, cell: Seq<char>| padded_cell(all, j, cell)));
            }
            proof { lemma_row_within_columns(all, i as int); }
            assert(views(row@).take(c as int) =~= views(row@));
            join_chars(&cells, &bar)
        };
        let line = two_span_line(prefix, Some(label_style), &text, Some(code_style()));
        let ghost before = line_views(lines@);
        lines.push(line);
        assert(line_views(lines@) =~= before.push(line@));
        assert(expected[i as int] == line@);
        i = i + 1;
        assert(expected.take(i as int) =~= expected.take(i - 1).push(expected[i - 1]));
    }
    assert(expected.take(i as int) =~= expected);
    lines
}

// ----------------------------------------------------------------------------
// Markdown blocks
// ----------------------------------------------------------------------------

/// The elements of markdown the transcript tells apart.
#[derive(Clone, Copy, Debug, PartialEq, Eq, Structural)]
pub enum MarkdownTag {
    Paragraph,
    Heading,
    CodeBlock,
    List,
    Item,
    BlockQuote,
    Table,
    TableRow,
    TableCell,
    Strong,
    Emphasis,
    Strikethrough,
    Link,
    Image,
    Other,
}

/// One event of a markdown parse, as the transcript reads it: the start
/// or end of an element, a list start with its first number, text, code,
/// HTML, a footnote reference, a line break, a rule, a task marker, or
/// anything else.
#[derive(Clone, Debug, PartialEq, Eq)]
pub enum MarkdownEvent {
    Start(MarkdownTag),
    End(MarkdownTag),
    StartList(Option<u64>),
    Text(String),
    Code(String),
    Html(String),
    FootnoteReference(String),
    Break,
    Rule,
    TaskListMarker(bool),
    Other,
}

/// A table being read: the rows so far, the open row and the open cell.
pub struct TableModel {
    pub rows: Seq<Seq<Seq<char>>>,
    pub row: Seq<Seq<char>>,
    pub cell: Seq<char>,
}

/// Where rendering a message's markdown stands.
pub struct MarkdownModel {
    /// The lines drawn so far.
    pub lines: Seq<LineView>,
    /// The runs of the open block.
    pub current: Seq<(Seq<char>, TextStyle)>,
    /// The open block's own prefix (list marker or quote bar).
    pub prefix: Seq<char>,
    /// The style of new text, and the styles to go back to.
    pub style: TextStyle,
    pub styles: Seq<TextStyle>,
    /// The text of an open code block.
    pub code: Option<Seq<char>>,
    /// The open lists: ordered or not, and the next number.
    pub lists: Seq<(bool, u64)>,
    pub quote_depth: nat,
    pub table: Option<TableModel>,
    /// Whether the message's label was drawn.
    pub emitted: bool,
}

/// How a message's markdown is drawn: its label, the prefix of its later
/// lines, the label's and the body's styles, and the width.
pub struct MarkdownFrame {
    pub label: Seq<char>,
    pub continuation: Seq<char>,
    pub label_style: TextStyle,
    pub body_style: TextStyle,
    pub width: nat,
}

/// The state before the first event.
pub open spec fn markdown_start(fr: MarkdownFrame) -> MarkdownModel {
    MarkdownModel {
        lines: Seq::<LineView>::empty(),
        current: Seq::<(Seq<char>, TextStyle)>::empty(),
        prefix: Seq::<char>::empty(),
        style: fr.body_style,
        styles: Seq::<TextStyle>::empty(),
        code: None,
        lists: Seq::<(bool, u64)>::empty(),
        quote_depth: 0,
        table: None,
        emitted: false,
    }
}

/// Draws the open block behind `local`, wrapped; nothing when it is empty.
pub open spec fn flush_block(m: MarkdownModel, fr: MarkdownFrame, local: Seq<char>) -> MarkdownModel {
    if m.current.len() == 0 {
        m
    } else {
        MarkdownModel {
            lines: m.lines + wrapped(
                m.current,
                fr.width,
                block_prefix(fr.label, fr.continuation, local, m.emitted),
                block_continuation(fr.continuation, local),
                fr.label_style,
            ),
            current: Seq::<(Seq<char>, TextStyle)>::empty(),
            emitted: true,
            ..m
        }
    }
}

/// `m` with one more line.
pub open spec fn with_line(m: MarkdownModel, line: LineView) -> MarkdownModel {
    MarkdownModel { lines: m.lines.push(line), ..m }
}

/// `m` with one more run in the open block.
pub open spec fn with_run(m: MarkdownModel, text: Seq<char>, style: TextStyle) -> MarkdownModel {
    MarkdownModel { current: m.current.push((text, style)), ..m }
}

/// `m` with a new style, the old one kept to go back to.
pub open spec fn with_style(m: MarkdownModel, style: TextStyle) -> MarkdownModel {
    MarkdownModel { styles: m.styles.push(m.style), style, ..m }
}

/// `m` back at the last kept style, or the body style when none is kept.
pub open spec fn style_restored(m: MarkdownModel, fr: MarkdownFrame) -> MarkdownModel {
    if m.styles.len() > 0 {
        MarkdownModel { style: m.styles.last(), styles: m.styles.drop_last(), ..m }
    } else {
        MarkdownModel { style: fr.body_style, ..m }
    }
}

/// `n + 1`, at most `u64::MAX`.
pub open spec fn next_number(n: u64) -> u64 {
    if n == u64::MAX {
        n
    } else {
        (n + 1) as u64
    }
}

/// Opens a list item: the marker is `N. ` in an ordered list (whose next
/// number goes up) and `• ` otherwise, indented two spaces per enclosing
/// list.
pub open spec fn open_item(m: MarkdownModel) -> MarkdownModel {
    let top = if m.lists.len() > 0 {
        m.lists.last()
    } else {
        (false, 0u64)
    };
    let lists = if top.0 {
        m.lists.update(m.lists.len() - 1, (true, next_number(top.1)))
    } else {
        m.lists
    };
    let marker = if top.0 {
        decimal(top.1 as nat) + ". "@
    } else {
        "\u{2022} "@
    };
    MarkdownModel { lists, prefix: repeat("  "@, less(m.lists.len() as int, 1)) + marker, ..m }
}

/// One event inside a table.
pub open spec fn table_step(m: MarkdownModel, fr: MarkdownFrame, t: TableModel, e: MarkdownEvent) -> MarkdownModel {
    match e {
        MarkdownEvent::Start(MarkdownTag::TableRow) => MarkdownModel {
            table: Some(TableModel { row: Seq::<Seq<char>>::empty(), ..t }),
            ..m
        },
        MarkdownEvent::End(MarkdownTag::TableRow) => if t.row.len() > 0 {
            MarkdownModel {
                table: Some(TableModel { rows: t.rows.push(t.row), row: Seq::<Seq<char>>::empty(), ..t }),
                ..m
            }
        } else {
            m
        },
        MarkdownEvent::Start(MarkdownTag::TableCell) => MarkdownModel {
            table: Some(TableModel { cell: Seq::<char>::empty(), ..t }),
            ..m
        },
        MarkdownEvent::End(MarkdownTag::TableCell) => MarkdownModel {
            table: Some(TableModel { row: t.row.push(t.cell), cell: Seq::<char>::empty(), ..t }),
            ..m
        },
        MarkdownEvent::Text(x) => MarkdownModel {
            table: Some(TableModel { cell: t.cell + x@, ..t }),
            ..m
        },
        MarkdownEvent::Code(x) => MarkdownModel {
            table: Some(TableModel { cell: t.cell + x@, ..t }),
            ..m
        },
        MarkdownEvent::Break => MarkdownModel {
            table: Some(TableModel { cell: t.cell.push(' '), ..t }),
            ..m
        },
        MarkdownEvent::End(MarkdownTag::Table) => MarkdownModel {
            lines: m.lines + table_lines(
                t.rows,
                block_prefix(fr.label, fr.continuation, Seq::<char>::empty(), m.emitted),
                fr.continuation,
                fr.label_style,
                fr.width,
            ),
            table: None,
            emitted: true,
            ..m
        },
        _ => m,
    }
}

/// The lines of a finished code block: each line of its text behind the
/// block prefix and two spaces, then a blank line.
pub open spec fn code_lines(code: Seq<char>, prefix: Seq<char>, body_style: TextStyle) -> Seq<LineView> {
    lines(code).map_values(
        |l: Seq<char>| seq![(prefix + "  "@, Some(body_style)), (l, Some(code_style()))],
    ).push(Seq::<SpanView>::empty())
}

/// One event inside a code block.
pub open spec fn code_step(m: MarkdownModel, fr: MarkdownFrame, code: Seq<char>, e: MarkdownEvent) -> MarkdownModel {
    match e {
        MarkdownEvent::End(MarkdownTag::CodeBlock) => {
            let m1 = flush_block(MarkdownModel { code: None, ..m }, fr, Seq::<char>::empty());
            MarkdownModel {
                lines: m1.lines + code_lines(
                    code,
                    block_prefix(fr.label, fr.continuation, Seq::<char>::empty(), m1.emitted),
                    fr.body_style,
                ),
                emitted: true,
                ..m1
            }
        },
        MarkdownEvent::Text(x) => MarkdownModel { code: Some(code + x@), ..m },
        MarkdownEvent::Break => MarkdownModel { code: Some(code.push('\n')), ..m },
        _ => m,
    }
}

/// The horizontal rule's line.
pub open spec fn rule_line(prefix: Seq<char>, label_style: TextStyle) -> LineView {
    seq![
        (prefix, Some(label_style)),
        ("  \u{2500}\u{2500}\u{2500}\u{2500}\u{2500}\u{2500}\u{2500}\u{2500}\u{2500}\u{2500}\u{2500}\u{2500}\u{2500}"@, Some(muted_style())),
    ]
}

/// One event opening an element outside tables and code blocks.
pub open spec fn start_step(m: MarkdownModel, fr: MarkdownFrame, tag: MarkdownTag) -> MarkdownModel {
    match tag {
        MarkdownTag::Paragraph => if m.quote_depth == 0 {
            MarkdownModel { prefix: Seq::<char>::empty(), ..m }
        } else {
            m
        },
        MarkdownTag::Heading => MarkdownModel {
            style: heading_style(),
            prefix: Seq::<char>::empty(),
            ..m
        },
        MarkdownTag::CodeBlock => MarkdownModel {
            code: Some(Seq::<char>::empty()),
            ..flush_block(m, fr, Seq::<char>::empty())
        },
        MarkdownTag::Item => open_item(m),
        MarkdownTag::BlockQuote => MarkdownModel {
            quote_depth: m.quote_depth + 1,
            prefix: repeat("  "@, m.quote_depth) + "\u{2502} "@,
            ..m
        },
        MarkdownTag::Table => MarkdownModel {
            table: Some(
                TableModel {
                    rows: Seq::<Seq<Seq<char>>>::empty(),
                    row: Seq::<Seq<char>>::empty(),
                    cell: Seq::<char>::empty(),
                },
            ),
            ..flush_block(m, fr, Seq::<char>::empty())
        },
        MarkdownTag::Strong => with_style(m, TextStyle { bold: true, ..m.style }),
        MarkdownTag::Emphasis => with_style(m, TextStyle { italic: true, ..m.style }),
        MarkdownTag::Strikethrough => with_style(m, TextStyle { crossed_out: true, ..m.style }),
        MarkdownTag::Link => with_style(m, TextStyle { underlined: true, ..m.style }),
        MarkdownTag::Image => with_run(m, "!["@, m.style),
        _ => m,
    }
}

/// One event closing an element outside tables and code blocks.
pub open spec fn end_step(m: MarkdownModel, fr: MarkdownFrame, tag: MarkdownTag) -> MarkdownModel {
    match tag {
        MarkdownTag::Paragraph => with_line(flush_block(m, fr, m.prefix), Seq::<SpanView>::empty()),
        MarkdownTag::Heading => with_line(
            MarkdownModel { style: fr.body_style, ..flush_block(m, fr, m.prefix) },
            Seq::<SpanView>::empty(),
        ),
        MarkdownTag::List => with_line(
            MarkdownModel {
                lists: if m.lists.len() > 0 {
                    m.lists.drop_last()
                } else {
                    m.lists
                },
                ..m
            },
            Seq::<SpanView>::empty(),
        ),
        MarkdownTag::Item => flush_block(m, fr, m.prefix),
        MarkdownTag::BlockQuote => with_line(
            MarkdownModel { quote_depth: less(m.quote_depth as int, 1), ..m },
            Seq::<SpanView>::empty(),
        ),
        MarkdownTag::Strong => style_restored(m, fr),
        MarkdownTag::Emphasis => style_restored(m, fr),
        MarkdownTag::Strikethrough => style_restored(m, fr),
        MarkdownTag::Link => style_restored(m, fr),
        MarkdownTag::Image => with_run(m, "]"@, m.style),
        _ => m,
    }
}

/// One event outside tables and code blocks.
pub open spec fn body_step(m: MarkdownModel, fr: MarkdownFrame, e: MarkdownEvent) -> MarkdownModel {
    match e {
        MarkdownEvent::Start(tag) => start_step(m, fr, tag),
        MarkdownEvent::End(tag) => end_step(m, fr, tag),
        MarkdownEvent::StartList(first) => MarkdownModel {
            lists: m.lists.push(
                (
                    first is Some,
                    match first {
                        Some(n) => n,
                        None => 1u64,
                    },
                ),
            ),
            ..m
        },
        MarkdownEvent::Rule => {
            let m1 = flush_block(m, fr, Seq::<char>::empty());
            MarkdownModel {
                lines: m1.lines.push(
                    rule_line(
                        block_prefix(fr.label, fr.continuation, Seq::<char>::empty(), m1.emitted),
                        fr.label_style,
                    ),
                ).push(Seq::<SpanView>::empty()),
                emitted: true,
                ..m1
            }
        },
        MarkdownEvent::Text(x) => with_run(m, x@, m.style),
        MarkdownEvent::Code(x) => with_run(m, x@, code_style()),
        MarkdownEvent::Break => with_run(m, "\n"@, m.style),
        MarkdownEvent::TaskListMarker(checked) => with_run(
            m,
            if checked {
                "\u{2612} "@
            } else {
                "\u{2610} "@
            },
            m.style,
        ),
        MarkdownEvent::Html(h) => with_run(m, h@, m.style),
        MarkdownEvent::FootnoteReference(r) => with_run(m, "[^"@ + r@ + "]"@, m.style),
        _ => m,
    }
}

/// One event: read into the open table, the open code block, or the body.
pub open spec fn markdown_step(m: MarkdownModel, fr: MarkdownFrame, e: MarkdownEvent) -> MarkdownModel {
    match m.table {
        Some(t) => table_step(m, fr, t, e),
        None => match m.code {
            Some(code) => code_step(m, fr, code, e),
            None => body_step(m, fr, e),
        },
    }
}

/// The events read in turn.
pub open spec fn markdown_fold(fr: MarkdownFrame, events: Seq<MarkdownEvent>) -> MarkdownModel
    decreases events.len(),
{
    if events.len() == 0 {
        markdown_start(fr)
    } else {
        markdown_step(markdown_fold(fr, events.drop_last()), fr, events.last())
    }
}

/// `lines` without its trailing blank lines.
pub open spec fn without_trailing_blanks(lines: Seq<LineView>) -> Seq<LineView>
    decreases lines.len(),
{
    if lines.len() > 0 && lines.last().len() == 0 {
        without_trailing_blanks(lines.drop_last())
    } else {
        lines
    }
}

/// The lines of a message's markdown: the events read in turn, the open
/// block drawn, trailing blank lines dropped (one kept for an unlabelled
/// message with no line), and one blank separator line.
pub open spec fn markdown_lines(events: Seq<MarkdownEvent>, fr: MarkdownFrame) -> Seq<LineView> {
    let end = markdown_fold(fr, events);
    let drawn = without_trailing_blanks(flush_block(end, fr, end.prefix).lines);
    let kept = if fr.label.len() == 0 && drawn.len() == 0 {
        seq![Seq::<SpanView>::empty()]
    } else {
        drawn
    };
    kept.push(Seq::<SpanView>::empty())
}

/// A table being read, as values.
struct TableBuild {
    rows: Vec<Vec<Vec<char>>>,
    row: Vec<Vec<char>>,
    cell: Vec<char>,
}

impl View for TableBuild {
    type V = TableModel;

    closed spec fn view(&self) -> TableModel {
        TableModel { rows: row_views(self.rows@), row: views(self.row@), cell: self.cell@ }
    }
}

/// How a message's markdown is drawn, as values.
struct MarkdownFraming {
    label: Vec<char>,
    continuation: Vec<char>,
    label_style: TextStyle,
    body_style: TextStyle,
    width: usize,
}

impl View for MarkdownFraming {
    type V = MarkdownFrame;

    closed spec fn view(&self) -> MarkdownFrame {
        MarkdownFrame {
            label: self.label@,
            continuation: self.continuation@,
            label_style: self.label_style,
            body_style: self.body_style,
            width: self.width as nat,
        }
    }
}

/// The rendering state of [`render_markdown_events`].
struct MarkdownRender {
    lines: Vec<StyledLine>,
    current: Vec<InlineText>,
    prefix: Vec<char>,
    style: TextStyle,
    styles: Vec<TextStyle>,
    code: Option<Vec<char>>,
    lists: Vec<(bool, u64)>,
    quote_depth: usize,
    table: Option<TableBuild>,
    emitted: bool,
}

/// The text of an optional character vector.
pub open spec fn opt_view(v: Option<Vec<char>>) -> Option<Seq<char>> {
    match v {
        Some(c) => Some(c@),
        None => None,
    }
}

/// The content of an optional table.
spec fn opt_table(t: Option<TableBuild>) -> Option<TableModel> {
    match t {
        Some(t) => Some(t@),
        None => None,
    }
}

/// Appends `more` to `lines`.
fn append_lines(lines: &mut Vec<StyledLine>, more: Vec<StyledLine>)
    ensures
        line_views(final(lines)@) == line_views(old(lines)@) + line_views(more@),
{
    let mut more = more;
    let ghost head = lines@;
    let ghost tail = more@;
    lines.append(&mut more);
    assert(line_views(lines@) =~= line_views(head) + line_views(tail));
}

/// A copy of `v`.
fn copy_chars(v: &Vec<char>) -> (result: Vec<char>)
    ensures
        result@ == v@,
{
    let result = crate::text::slice_chars(v, 0, v.len());
    assert(result@ =~= v@);
    result
}

impl MarkdownRender {
    closed spec fn model(&self) -> MarkdownModel {
        MarkdownModel {
            lines: line_views(self.lines@),
            current: inline_views(self.current@),
            prefix: self.prefix@,
            style: self.style,
            styles: self.styles@,
            code: opt_view(self.code),
            lists: self.lists@,
            quote_depth: self.quote_depth as nat,
            table: opt_table(self.table),
            emitted: self.emitted,
        }
    }

    fn flush(&mut self, fr: &MarkdownFraming, local: &Vec<char>)
        ensures
            final(self).model() == flush_block(old(self).model(), fr@, local@),
    {
        if self.current.len() == 0 {
            return;
        }
        let first = message_block_prefix(&fr.label, &fr.continuation, local, &mut self.emitted);
        let continuation = block_continuation_prefix(&fr.continuation, local);
        let drawn = wrap_inline(&self.current, fr.width, &first, &continuation, fr.label_style);
        append_lines(&mut self.lines, drawn);
        self.current = Vec::new();
        assert(inline_views(self.current@) =~= Seq::<(Seq<char>, TextStyle)>::empty());
        assert(self.model() =~= flush_block(old(self).model(), fr@, local@));
    }

    fn flush_own(&mut self, fr: &MarkdownFraming)
        ensures
            final(self).model() == flush_block(old(self).model(), fr@, old(self).model().prefix),
    {
        let local = copy_chars(&self.prefix);
        self.flush(fr, &local);
    }

    fn push_blank(&mut self)
        ensures
            final(self).model() == with_line(old(self).model(), Seq::<SpanView>::empty()),
    {
        let ghost before = line_views(self.lines@);
        self.lines.push(blank_line());
        assert(line_views(self.lines@) =~= before.push(Seq::<SpanView>::empty()));
    }

    fn push_run(&mut self, text: Vec<char>, style: TextStyle)
        ensures
            final(self).model() == with_run(old(self).model(), text@, style),
    {
        let ghost before = inline_views(self.current@);
        self.current.push(InlineText { text, style });
        assert(inline_views(self.current@) =~= before.push((text@, style)));
    }

    fn push_style(&mut self, style: TextStyle)
        ensures
            final(self).model() == with_style(old(self).model(), style),
    {
        self.styles.push(self.style);
        self.style = style;
    }

    fn pop_style(&mut self, fr: &MarkdownFraming)
        ensures
            final(self).model() == style_restored(old(self).model(), fr@),
    {
        match self.styles.pop() {
            Some(s) => {
                self.style = s;
            },
            None => {
                self.style = fr.body_style;
            },
        }
    }

    fn table_event(&mut self, fr: &MarkdownFraming, e: &MarkdownEvent)
        requires
            old(self).table is Some,
        ensures
            match old(self).model().table {
                Some(t) => final(self).model() == table_step(old(self).model(), fr@, t, *e),
                None => true,
            },
    {
        let taken = self.table.take();
        let t = match taken {
            Some(t) => t,
            None => {
                return;
            },
        };
        let ghost tm = t@;
        let TableBuild { mut rows, mut row, mut cell } = t;
        match e {
            MarkdownEvent::Start(MarkdownTag::TableRow) => {
                row = Vec::new();
            },
            MarkdownEvent::End(MarkdownTag::TableRow) => {
                if row.len() > 0 {
                    let ghost before = row_views(rows@);
                    rows.push(row);
                    assert(row_views(rows@) =~= before.push(tm.row));
                    row = Vec::new();
                }
            },
            MarkdownEvent::Start(MarkdownTag::TableCell) => {
                cell = Vec::new();
            },
            MarkdownEvent::End(MarkdownTag::TableCell) => {
                let ghost before = views(row@);
                row.push(cell);
                assert(views(row@) =~= before.push(tm.cell));
                cell = Vec::new();
            },
            MarkdownEvent::Text(x) => {
                push_str(&mut cell, x.as_str());
            },
            MarkdownEvent::Code(x) => {
                push_str(&mut cell, x.as_str());
            },
            MarkdownEvent::Break => {
                cell.push(' ');
            },
            MarkdownEvent::End(MarkdownTag::Table) => {
                let none: Vec<char> = Vec::new();
                let prefix = message_block_prefix(
                    &fr.label,
                    &fr.continuation,
                    &none,
                    &mut self.emitted,
                );
                let drawn = render_table(&rows, &prefix, &fr.continuation, fr.label_style, fr.width);
                append_lines(&mut self.lines, drawn);
                assert(self.model() =~= table_step(old(self).model(), fr@, tm, *e));
                return;
            },
            _ => {},
        }
        self.table = Some(TableBuild { rows, row, cell });
        assert(row_views(Seq::<Vec<Vec<char>>>::empty()) =~= Seq::<Seq<Seq<char>>>::empty());
        assert(views(Seq::<Vec<char>>::empty()) =~= Seq::<Seq<char>>::empty());
        assert(self.model() =~= table_step(old(self).model(), fr@, tm, *e));
    }
}

impl MarkdownRender {
    fn code_event(&mut self, fr: &MarkdownFraming, e: &MarkdownEvent)
        requires
            old(self).code is Some,
        ensures
            match old(self).model().code {
                Some(code) => final(self).model() == code_step(old(self).model(), fr@, code, *e),
                None => true,
            },
    {
        let taken = self.code.take();
        let mut code = match taken {
            Some(c) => c,
            None => {
                return;
            },
        };
        let ghost start = code@;
        match e {
            MarkdownEvent::End(MarkdownTag::CodeBlock) => {
                let none: Vec<char> = Vec::new();
                assert(self.model() == MarkdownModel { code: None, ..old(self).model() });
                self.flush(fr, &none);
                let ghost m1 = self.model();
                assert(none@ =~= Seq::<char>::empty());
                assert(m1 == flush_block(MarkdownModel { code: None, ..old(self).model() }, fr@, Seq::<char>::empty()));
                let block = message_block_prefix(
                    &fr.label,
                    &fr.continuation,
                    &none,
                    &mut self.emitted,
                );
                assert(block@ == block_prefix(fr@.label, fr@.continuation, Seq::<char>::empty(), m1.emitted));
                let mut code_prefix = copy_chars(&block);
                push_str(&mut code_prefix, "  ");
                let code_text = lines_of(&code);
                let ghost head = line_views(self.lines@);
                let ghost m2 = self.model();
                let mut i: usize = 0;
                while i < code_text.len()
                    invariant
                        i <= code_text.len(),
                        self.model() == (MarkdownModel { lines: line_views(self.lines@), ..m2 }),
                        views(code_text@) == lines(start),
                        code_prefix@ == block@ + "  "@,
                        line_views(self.lines@) == head + lines(start).take(i as int).map_values(
                            |l: Seq<char>| seq![(code_prefix@, Some(fr.body_style)), (l, Some(code_style()))],
                        ),
                    decreases code_text.len() - i,
                {
                    let line = two_span_line(&code_prefix, Some(fr.body_style), &code_text[i], Some(code_style()));
                    let ghost before = line_views(self.lines@);
                    self.lines.push(line);
                    assert(line_views(self.lines@) =~= before.push(line@));
                    i = i + 1;
                    assert(lines(start).take(i as int) =~= lines(start).take(i - 1).push(code_text@[i - 1]@));
                    assert(line_views(self.lines@) =~= head + lines(start).take(i as int).map_values(
                        |l: Seq<char>| seq![(code_prefix@, Some(fr.body_style)), (l, Some(code_style()))],
                    ));
                }
                assert(lines(start).take(i as int) =~= lines(start));
                let ghost drawn = lines(start).map_values(
                    |l: Seq<char>| seq![(code_prefix@, Some(fr.body_style)), (l, Some(code_style()))],
                );
                assert(drawn =~= lines(start).map_values(
                    |l: Seq<char>| seq![(block@ + "  "@, Some(fr.body_style)), (l, Some(code_style()))],
                ));
                self.push_blank();
                assert(line_views(self.lines@) =~= head + code_lines(start, block@, fr.body_style));
                assert(self.model() =~= code_step(old(self).model(), fr@, start, *e));
                return;
            },
            MarkdownEvent::Text(x) => {
                push_str(&mut code, x.as_str());
            },
            MarkdownEvent::Break => {
                code.push('\n');
            },
            _ => {},
        }
        self.code = Some(code);
        assert(self.model() =~= code_step(old(self).model(), fr@, start, *e));
    }

    fn open_item(&mut self)
        ensures
            final(self).model() == open_item(old(self).model()),
    {
        let n = self.lists.len();
        let top: (bool, u64) = if n > 0 { self.lists[n - 1] } else { (false, 0) };
        let mut marker: Vec<char> = Vec::new();
        if top.0 {
            let next: u64 = if top.1 == u64::MAX { top.1 } else { top.1 + 1 };
            self.lists.set(n - 1, (true, next));
            marker = decimal_chars(top.1);
            push_str(&mut marker, ". ");
        } else {
            push_str(&mut marker, "\u{2022} ");
        }
        let mut prefix: Vec<char> = Vec::new();
        let depth: usize = if n > 0 { n - 1 } else { 0 };
        push_repeat(&mut prefix, "  ", depth);
        push_all(&mut prefix, &marker);
        self.prefix = prefix;
        assert(self.model() =~= open_item(old(self).model()));
    }

    fn start_event(&mut self, fr: &MarkdownFraming, tag: MarkdownTag)
        requires
            old(self).quote_depth < usize::MAX,
        ensures
            final(self).model() == start_step(old(self).model(), fr@, tag),
    {
        match tag {
            MarkdownTag::Paragraph => {
                if self.quote_depth == 0 {
                    self.prefix = Vec::new();
                }
            },
            MarkdownTag::Heading => {
                self.style = heading_style();
                self.prefix = Vec::new();
            },
            MarkdownTag::CodeBlock => {
                let none: Vec<char> = Vec::new();
                self.flush(fr, &none);
                self.code = Some(Vec::new());
            },
            MarkdownTag::Item => {
                self.open_item();
            },
            MarkdownTag::BlockQuote => {
                let mut prefix: Vec<char> = Vec::new();
                push_repeat(&mut prefix, "  ", self.quote_depth);
                push_str(&mut prefix, "\u{2502} ");
                self.quote_depth = self.quote_depth + 1;
                self.prefix = prefix;
            },
            MarkdownTag::Table => {
                let none: Vec<char> = Vec::new();
                self.flush(fr, &none);
                self.table = Some(TableBuild { rows: Vec::new(), row: Vec::new(), cell: Vec::new() });
                assert(row_views(Seq::<Vec<Vec<char>>>::empty()) =~= Seq::<Seq<Seq<char>>>::empty());
                assert(views(Seq::<Vec<char>>::empty()) =~= Seq::<Seq<char>>::empty());
            },
            MarkdownTag::Strong => {
                let s = TextStyle { bold: true, ..self.style };
                self.push_style(s);
            },
            MarkdownTag::Emphasis => {
                let s = TextStyle { italic: true, ..self.style };
                self.push_style(s);
            },
            MarkdownTag::Strikethrough => {
                let s = TextStyle { crossed_out: true, ..self.style };
                self.push_style(s);
            },
            MarkdownTag::Link => {
                let s = TextStyle { underlined: true, ..self.style };
                self.push_style(s);
            },
            MarkdownTag::Image => {
                let style = self.style;
                self.push_run(to_chars("!["), style);
            },
            _ => {},
        }
        assert(self.model() =~= start_step(old(self).model(), fr@, tag));
    }

    fn end_event(&mut self, fr: &MarkdownFraming, tag: MarkdownTag)
        ensures
            final(self).model() == end_step(old(self).model(), fr@, tag),
    {
        match tag {
            MarkdownTag::Paragraph => {
                self.flush_own(fr);
                self.push_blank();
            },
            MarkdownTag::Heading => {
                self.flush_own(fr);
                self.style = fr.body_style;
                self.push_blank();
            },
            MarkdownTag::List => {
                self.lists.pop();
                self.push_blank();
            },
            MarkdownTag::Item => {
                self.flush_own(fr);
            },
            MarkdownTag::BlockQuote => {
                if self.quote_depth > 0 {
                    self.quote_depth = self.quote_depth - 1;
                }
                self.push_blank();
            },
            MarkdownTag::Strong => {
                self.pop_style(fr);
            },
            MarkdownTag::Emphasis => {
                self.pop_style(fr);
            },
            MarkdownTag::Strikethrough => {
                self.pop_style(fr);
            },
            MarkdownTag::Link => {
                self.pop_style(fr);
            },
            MarkdownTag::Image => {
                let style = self.style;
                self.push_run(to_chars("]"), style);
            },
            _ => {},
        }
        assert(self.model() =~= end_step(old(self).model(), fr@, tag));
    }

    fn body_event(&mut self, fr: &MarkdownFraming, e: &MarkdownEvent)
        requires
            old(self).quote_depth < usize::MAX,
        ensures
            final(self).model() == body_step(old(self).model(), fr@, *e),
    {
        match e {
            MarkdownEvent::Start(tag) => {
                self.start_event(fr, *tag);
            },
            MarkdownEvent::End(tag) => {
                self.end_event(fr, *tag);
            },
            MarkdownEvent::StartList(first) => {
                let entry: (bool, u64) = match first {
                    Some(n) => (true, *n),
                    None => (false, 1),
                };
                self.lists.push(entry);
            },
            MarkdownEvent::Rule => {
                let none: Vec<char> = Vec::new();
                self.flush(fr, &none);
                let prefix = message_block_prefix(&fr.label, &fr.continuation, &none, &mut self.emitted);
                let rule = to_chars("  \u{2500}\u{2500}\u{2500}\u{2500}\u{2500}\u{2500}\u{2500}\u{2500}\u{2500}\u{2500}\u{2500}\u{2500}\u{2500}");
                let line = two_span_line(&prefix, Some(fr.label_style), &rule, Some(muted_style()));
                let ghost before = line_views(self.lines@);
                self.lines.push(line);
                assert(line_views(self.lines@) =~= before.push(line@));
                self.push_blank();
            },
            MarkdownEvent::Text(x) => {
                let style = self.style;
                self.push_run(to_chars(x.as_str()), style);
            },
            MarkdownEvent::Code(x) => {
                self.push_run(to_chars(x.as_str()), code_style());
            },
            MarkdownEvent::Break => {
                let style = self.style;
                self.push_run(to_chars("\n"), style);
            },
            MarkdownEvent::TaskListMarker(checked) => {
                let style = self.style;
                if *checked {
                    self.push_run(to_chars("\u{2612} "), style);
                } else {
                    self.push_run(to_chars("\u{2610} "), style);
                }
            },
            MarkdownEvent::Html(h) => {
                let style = self.style;
                self.push_run(to_chars(h.as_str()), style);
            },
            MarkdownEvent::FootnoteReference(r) => {
                let style = self.style;
                let mut text = to_chars("[^");
                push_str(&mut text, r.as_str());
                push_str(&mut text, "]");
                self.push_run(text, style);
            },
            MarkdownEvent::Other => {},
        }
    }

    fn step(&mut self, fr: &MarkdownFraming, e: &MarkdownEvent)
        requires
            old(self).quote_depth < usize::MAX,
        ensures
            final(self).model() == markdown_step(old(self).model(), fr@, *e),
            final(self).quote_depth <= old(self).quote_depth + 1,
    {
        if self.table.is_some() {
            self.table_event(fr, e);
        } else if self.code.is_some() {
            self.code_event(fr, e);
        } else {
            self.body_event(fr, e);
        }
    }
}

/// Renders markdown events as the lines of a message.
pub fn render_markdown_events(
    events: &Vec<MarkdownEvent>,
    label: &Vec<char>,
    continuation: &Vec<char>,
    label_style: TextStyle,
    body_style: TextStyle,
    width: usize,
) -> (lines: Vec<StyledLine>)
    ensures
        line_views(lines@) == markdown_lines(
            events@,
            MarkdownFrame {
                label: label@,
                continuation: continuation@,
                label_style,
                body_style,
                width: width as nat,
            },
        ),
{
    let fr = MarkdownFraming {
        label: copy_chars(label),
        continuation: copy_chars(continuation),
        label_style,
        body_style,
        width,
    };
    let ghost frame = fr@;
    let mut r = MarkdownRender {
        lines: Vec::new(),
        current: Vec::new(),
        prefix: Vec::new(),
        style: body_style,
        styles: Vec::new(),
        code: None,
        lists: Vec::new(),
        quote_depth: 0,
        table: None,
        emitted: false,
    };
    assert(line_views(r.lines@) =~= Seq::<LineView>::empty());
    assert(inline_views(r.current@) =~= Seq::<(Seq<char>, TextStyle)>::empty());
    assert(r.model() =~= markdown_fold(frame, events@.take(0)));
    let mut i: usize = 0;
    while i < events.len()
        invariant
            i <= events.len(),
            frame == fr@,
            r.quote_depth <= i,
            r.model() == markdown_fold(frame, events@.take(i as int)),
        decreases events.len() - i,
    {
        r.step(&fr, &events[i]);
        i = i + 1;
        assert(events@.take(i as int).drop_last() =~= events@.take(i - 1));
    }
    assert(events@.take(i as int) =~= events@);
    r.flush_own(&fr);
    let ghost drawn = line_views(r.lines@);
    let mut lines = r.lines;
    while lines.len() > 0 && lines[lines.len() - 1].spans.len() == 0
        invariant
            without_trailing_blanks(line_views(lines@)) == without_trailing_blanks(drawn),
        decreases lines.len(),
    {
        let ghost before = line_views(lines@);
        lines.pop();
        assert(line_views(lines@) =~= before.drop_last());
    }
    assert(without_trailing_blanks(line_views(lines@)) == line_views(lines@));
    if label.len() == 0 && lines.len() == 0 {
        lines.push(blank_line());
        assert(line_views(lines@) =~= seq![Seq::<SpanView>::empty()]);
    }
    let ghost kept = line_views(lines@);
    lines.push(blank_line());
    assert(line_views(lines@) =~= kept.push(Seq::<SpanView>::empty()));
    lines
}

/// The lines of the markdown `text` drawn with `frame`.
pub open spec fn markdown_text_lines(text: Seq<char>, frame: MarkdownFrame) -> Seq<LineView> {
    markdown_lines(markdown_events_of(text), frame)
}

/// Parses `raw` as markdown and renders it as the lines of a message.
pub fn render_markdown(
    raw: &str,
    label: &Vec<char>,
    continuation: &Vec<char>,
    label_style: TextStyle,
    body_style: TextStyle,
    width: usize,
) -> (lines: Vec<StyledLine>)
    ensures
        line_views(lines@) == markdown_text_lines(
            raw@,
            MarkdownFrame {
                label: label@,
                continuation: continuation@,
                label_style,
                body_style,
                width: width as nat,
            },
        ),
{
    let events = markdown_events(raw);
    render_markdown_events(&events, label, continuation, label_style, body_style, width)
}

// ----------------------------------------------------------------------------
// Messages
// ----------------------------------------------------------------------------

/// `s` with each `\r\n` and each lone `\r` turned into `\n`.
pub open spec fn normalized(s: Seq<char>) -> Seq<char>
    decreases s.len(),
{
    if s.len() == 0 {
        Seq::<char>::empty()
    } else if s[0] == '\r' && s.len() > 1 && s[1] == '\n' {
        seq!['\n'] + normalized(s.skip(2))
    } else if s[0] == '\r' {
        seq!['\n'] + normalized(s.drop_first())
    } else {
        seq![s[0]] + normalized(s.drop_first())
    }
}

/// Turns `\r\n` and lone `\r` line endings into `\n`.
pub fn normalize_line_endings(value: &str) -> (result: String)
    ensures
        result@ == normalized(value@),
{
    let s = to_chars(value);
    let mut out: Vec<char> = Vec::new();
    let mut i: usize = 0;
    assert(s@.skip(0) =~= s@);
    while i < s.len()
        invariant
            i <= s.len(),
            out@ + normalized(s@.skip(i as int)) == normalized(s@),
        decreases s.len() - i,
    {
        let ghost rest = s@.skip(i as int);
        assert(rest[0] == s@[i as int]);
        if s[i] == '\r' && i + 1 < s.len() && s[i + 1] == '\n' {
            assert(rest[1] == s@[i + 1]);
            assert(rest.skip(2) =~= s@.skip(i + 2));
            out.push('\n');
            i = i + 2;
            assert(out@ + normalized(s@.skip(i as int)) =~= out@.drop_last() + normalized(rest));
        } else if s[i] == '\r' {
            assert(rest.drop_first() =~= s@.skip(i + 1));
            out.push('\n');
            i = i + 1;
            assert(out@ + normalized(s@.skip(i as int)) =~= out@.drop_last() + normalized(rest));
        } else {
            assert(rest.drop_first() =~= s@.skip(i + 1));
            out.push(s[i]);
            i = i + 1;
            assert(out@ + normalized(s@.skip(i as int)) =~= out@.drop_last() + normalized(rest));
        }
    }
    assert(s@.skip(i as int) =~= Seq::<char>::empty());
    assert(out@ + Seq::<char>::empty() =~= out@);
    from_chars(out.as_slice())
}

/// The title of a thought: `Thought: Nms` when its duration is known.
pub open spec fn thought_title(duration_ms: Option<u64>) -> Seq<char> {
    match duration_ms {
        Some(d) => "Thought: "@ + decimal(d as nat) + "ms"@,
        None => "Thought"@,
    }
}

/// The lines of a thought: its title, its markdown with no label, and a
/// blank line.
pub open spec fn thought_lines(raw: Seq<char>, duration_ms: Option<u64>, width: nat) -> Seq<LineView> {
    seq![seq![(thought_title(duration_ms), Some(muted_style()))]] + markdown_text_lines(
        raw,
        MarkdownFrame {
            label: Seq::<char>::empty(),
            continuation: Seq::<char>::empty(),
            label_style: muted_style(),
            body_style: muted_style(),
            width,
        },
    ) + seq![Seq::<SpanView>::empty()]
}

/// Renders a provider thought.
pub fn render_thought(raw: &str, duration_ms: Option<u64>, width: usize) -> (lines: Vec<StyledLine>)
    ensures
        line_views(lines@) == thought_lines(raw@, duration_ms, width as nat),
{
    let title = match duration_ms {
        Some(d) => {
            let mut t = to_chars("Thought: ");
            let digits = decimal_chars(d);
            push_all(&mut t, &digits);
            push_str(&mut t, "ms");
            t
        },
        None => to_chars("Thought"),
    };
    let mut lines: Vec<StyledLine> = Vec::new();
    lines.push(single_span_line(&title, Some(muted_style())));
    let ghost head = line_views(lines@);
    let none: Vec<char> = Vec::new();
    let body = render_markdown(raw, &none, &none, muted_style(), muted_style(), width);
    assert(none@ =~= Seq::<char>::empty());
    append_lines(&mut lines, body);
    let ghost middle = line_views(lines@);
    lines.push(blank_line());
    assert(line_views(lines@) =~= middle.push(Seq::<SpanView>::empty()));
    assert(line_views(lines@) =~= thought_lines(raw@, duration_ms, width as nat));
    lines
}

/// The gutter of a role: its label, the prefix of its later lines, and
/// the styles of the label and of the body.
pub open spec fn role_frame(role: Role, width: nat) -> MarkdownFrame {
    match role {
        Role::User => MarkdownFrame {
            label: "You \u{203a} "@,
            continuation: "\u{2502}     "@,
            label_style: user_style(),
            body_style: model_style(),
            width,
        },
        Role::Activity => MarkdownFrame {
            label: "Activity "@,
            continuation: repeat(" "@, display_width_of("Activity "@) as nat),
            label_style: muted_style(),
            body_style: muted_style(),
            width,
        },
        _ => MarkdownFrame {
            label: "\u{2502} "@,
            continuation: "\u{2506}       "@,
            label_style: model_style(),
            body_style: model_style(),
            width,
        },
    }
}

/// The lines of a text message: line endings normalized, then a thought,
/// or markdown behind the role's gutter.
pub open spec fn text_lines(role: Role, raw: Seq<char>, duration_ms: Option<u64>, width: nat) -> Seq<LineView> {
    let text = normalized(raw);
    if role == Role::Thought {
        thought_lines(text, duration_ms, width)
    } else {
        markdown_text_lines(text, role_frame(role, width))
    }
}

/// Renders a text message.
pub fn render_text(role: Role, raw: &str, duration_ms: Option<u64>, width: usize) -> (lines: Vec<StyledLine>)
    ensures
        line_views(lines@) == text_lines(role, raw@, duration_ms, width as nat),
{
    let text = normalize_line_endings(raw);
    match role {
        Role::Thought => render_thought(text.as_str(), duration_ms, width),
        Role::User => {
            let label = to_chars("You \u{203a} ");
            let continuation = to_chars("\u{2502}     ");
            render_markdown(text.as_str(), &label, &continuation, user_style(), model_style(), width)
        },
        Role::Activity => {
            let label = to_chars("Activity ");
            let label_width = display_width(&label);
            let mut continuation: Vec<char> = Vec::new();
            push_repeat(&mut continuation, " ", label_width);
            assert(continuation@ =~= repeat(" "@, display_width_of("Activity "@) as nat));
            render_markdown(text.as_str(), &label, &continuation, muted_style(), muted_style(), width)
        },
        Role::Roven => {
            let label = to_chars("\u{2502} ");
            let continuation = to_chars("\u{2506}       ");
            render_markdown(text.as_str(), &label, &continuation, model_style(), model_style(), width)
        },
    }
}

/// The lines of a transcript message `width` columns wide.
pub open spec fn message_lines(message: Message, width: nat) -> Seq<LineView> {
    match message.kind {
        MessageKind::Text => text_lines(message.role, message.content@, message.duration_ms, width),
        MessageKind::Tool { name, input, output } => card_lines(name@, input@, output@, width),
    }
}

/// Renders one transcript message: a text message behind its role's
/// gutter, or a tool call as a card.
pub fn render_message(message: &Message, width: usize) -> (lines: Vec<StyledLine>)
    ensures
        line_views(lines@) == message_lines(*message, width as nat),
{
    match &message.kind {
        MessageKind::Text => render_text(message.role, message.content.as_str(), message.duration_ms, width),
        MessageKind::Tool { name, input, output } => {
            let name_chars = to_chars(name.as_str());
            render_tool(&name_chars, input.as_str(), output.as_str(), width)
        },
    }
}

/// Every rendered message ends with a blank line, which separates it from
/// the next message of the transcript.
pub proof fn law_messages_end_with_blank_line(message: Message, width: nat)
    ensures
        message_lines(message, width).len() > 0,
        message_lines(message, width).last().len() == 0,
{
}

// ----------------------------------------------------------------------------
// Tool cards
// ----------------------------------------------------------------------------

/// A horizontal box edge `width` columns wide: nothing, the left corner,
/// both corners, or both corners around a rule.
pub open spec fn box_edge(left: char, right: char, width: nat) -> Seq<char> {
    if width == 0 {
        Seq::<char>::empty()
    } else if width == 1 {
        seq![left]
    } else if width == 2 {
        seq![left, right]
    } else {
        seq![left] + repeat("\u{2500}"@, (width - 2) as nat) + seq![right]
    }
}

/// Draws a horizontal box edge.
fn box_edge_text(left: char, right: char, width: usize) -> (result: Vec<char>)
    ensures
        result@ == box_edge(left, right, width as nat),
{
    let mut out: Vec<char> = Vec::new();
    if width == 0 {
    } else if width == 1 {
        out.push(left);
        assert(out@ =~= seq![left]);
    } else if width == 2 {
        out.push(left);
        out.push(right);
        assert(out@ =~= seq![left, right]);
    } else {
        out.push(left);
        push_repeat(&mut out, "\u{2500}", width - 2);
        out.push(right);
        assert(out@ =~= seq![left] + repeat("\u{2500}"@, (width - 2) as nat) + seq![right]);
    }
    out
}

/// The top edge of a tool card.
pub fn tool_box_top(width: usize) -> (result: Vec<char>)
    ensures
        result@ == box_edge('\u{250c}', '\u{2510}', width as nat),
{
    box_edge_text('\u{250c}', '\u{2510}', width)
}

/// The bottom edge of a tool card.
pub fn tool_box_bottom(width: usize) -> (result: Vec<char>)
    ensures
        result@ == box_edge('\u{2514}', '\u{2518}', width as nat),
{
    box_edge_text('\u{2514}', '\u{2518}', width)
}

/// One content row of a tool card `width` columns wide: the content is
/// clipped to the inner width less two columns and padded up to the right
/// border.
pub open spec fn box_row(content: Seq<char>, width: nat) -> Seq<char> {
    if width == 0 {
        Seq::<char>::empty()
    } else if width == 1 {
        seq!['\u{2502}']
    } else if width == 2 {
        seq!['\u{2502}', '\u{2502}']
    } else {
        let inner = width - 2;
        let shown = clipped(content, less(inner, 2));
        let padding = less(inner, display_width_of(shown) + 1);
        seq!['\u{2502}', ' '] + shown + repeat(" "@, padding) + seq!['\u{2502}']
    }
}

/// Draws one content row of a tool card.
pub fn tool_box_line(content: &Vec<char>, width: usize) -> (result: Vec<char>)
    ensures
        result@ == box_row(content@, width as nat),
{
    let mut out: Vec<char> = Vec::new();
    if width == 0 {
    } else if width == 1 {
        out.push('\u{2502}');
        assert(out@ =~= seq!['\u{2502}']);
    } else if width == 2 {
        out.push('\u{2502}');
        out.push('\u{2502}');
        assert(out@ =~= seq!['\u{2502}', '\u{2502}']);
    } else {
        let inner = width - 2;
        let budget: usize = if inner > 2 { inner - 2 } else { 0 };
        let shown = clip_to_width(content, budget);
        let shown_width = display_width(&shown);
        let padding: usize = if shown_width < inner { inner - shown_width - 1 } else { 0 };
        assert(padding == less(inner as int, shown_width + 1));
        out.push('\u{2502}');
        out.push(' ');
        push_all(&mut out, &shown);
        push_repeat(&mut out, " ", padding);
        out.push('\u{2502}');
        assert(out@ =~= seq!['\u{2502}', ' '] + shown@ + repeat(" "@, padding as nat) + seq![
            '\u{2502}',
        ]);
    }
    out
}

/// The status shown on a tool card: the output's `status` as capitalized
/// words, or `Completed` when it has none.
pub open spec fn status_text(output: Seq<char>) -> Seq<char> {
    match json_text_field_of(output, "status"@) {
        Some(status) => title_cased(status),
        None => "Completed"@,
    }
}

/// The status of a tool call from its JSON output.
pub fn tool_status(output: &str) -> (result: Vec<char>)
    ensures
        result@ == status_text(output@),
{
    match json_text_field(output, "status") {
        Some(status) => {
            let chars = to_chars(status.as_str());
            title_case_words(&chars)
        },
        None => to_chars("Completed"),
    }
}

/// `label` followed by `value`, as a one-line list, when there is a value.
pub open spec fn labelled(label: Seq<char>, value: Option<Seq<char>>) -> Seq<Seq<char>> {
    match value {
        Some(v) => seq![label + v],
        None => Seq::<Seq<char>>::empty(),
    }
}

/// The path a tool card shows: the output's `path`, else the input's.
pub open spec fn shown_path(input: Seq<char>, output: Seq<char>) -> Option<Seq<char>> {
    match json_text_field_of(output, "path"@) {
        Some(p) => Some(p),
        None => json_text_field_of(input, "path"@),
    }
}

/// The entry lines of a card: the count of listed entries and, for a
/// truncated listing, where it stopped.
pub open spec fn entry_details(output: Seq<char>) -> Seq<Seq<char>> {
    match json_array_len_of(output, "entries"@) {
        Some(n) => seq!["Entries: "@ + count_text(n as nat, "item"@, "items"@)] + if json_flag_of(
            output,
            "truncated"@,
        ) == Some(true) {
            seq!["Details: Truncated after "@ + count_text(n as nat, "item"@, "items"@)]
        } else {
            Seq::<Seq<char>>::empty()
        },
        None => Seq::<Seq<char>>::empty(),
    }
}

/// The content line of a card: how many lines and characters were read.
pub open spec fn content_details(output: Seq<char>) -> Seq<Seq<char>> {
    match json_text_field_of(output, "content"@) {
        Some(c) => seq![
            "Content: "@ + count_text(line_total(c), "line"@, "lines"@) + ", "@ + count_text(
                c.len(),
                "char"@,
                "chars"@,
            ),
        ],
        None => Seq::<Seq<char>>::empty(),
    }
}

/// The tools line of a card: how many tools were listed.
pub open spec fn tools_details(output: Seq<char>) -> Seq<Seq<char>> {
    match json_array_len_of(output, "tools"@) {
        Some(n) => seq!["Tools: "@ + count_text(n as nat, "tool"@, "tools"@)],
        None => Seq::<Seq<char>>::empty(),
    }
}

/// The project lines of a card: the prepared project's name and, when no
/// path was shown yet, its path.
pub open spec fn project_details(input: Seq<char>, output: Seq<char>) -> Seq<Seq<char>> {
    labelled("Project: "@, json_member_text_of(output, "project"@, "name"@)) + if shown_path(
        input,
        output,
    ) is Some {
        Seq::<Seq<char>>::empty()
    } else {
        labelled("Path: "@, json_member_text_of(output, "project"@, "path"@))
    }
}

/// The reason of a failed call, as words.
pub open spec fn shown_reason(output: Seq<char>) -> Option<Seq<char>> {
    match json_text_field_of(output, "reason"@) {
        Some(r) => Some(humanized(r)),
        None => None,
    }
}

/// The detail lines of a tool card, from the call's JSON input and output:
/// reason, path, entries, content, tools and project, each when present.
pub open spec fn detail_lines(input: Seq<char>, output: Seq<char>) -> Seq<Seq<char>> {
    labelled("Reason: "@, shown_reason(output)) + labelled("Path: "@, shown_path(input, output))
        + entry_details(output) + content_details(output) + tools_details(output)
        + project_details(input, output)
}

/// Appends `label` and `value` as one more detail line.
fn push_labelled(out: &mut Vec<Vec<char>>, label: &str, value: &Vec<char>)
    ensures
        views(final(out)@) == views(old(out)@).push(label@ + value@),
{
    let mut line = to_chars(label);
    push_all(&mut line, value);
    let ghost before = views(out@);
    out.push(line);
    assert(views(out@) =~= before.push(label@ + value@));
}

/// The text of an optional string.
pub open spec fn opt_chars(value: Option<String>) -> Option<Seq<char>> {
    match value {
        Some(v) => Some(v@),
        None => None,
    }
}

/// Appends `label` and `value` as one more detail line, when there is a
/// value.
fn push_optional(out: &mut Vec<Vec<char>>, label: &str, value: Option<String>)
    ensures
        views(final(out)@) == views(old(out)@) + labelled(label@, opt_chars(value)),
{
    match value {
        Some(v) => {
            let chars = to_chars(v.as_str());
            push_labelled(out, label, &chars);
            assert(views(out@) =~= views(old(out)@) + labelled(label@, opt_chars(Some(v))));
        },
        None => {
            assert(views(out@) =~= views(out@) + Seq::<Seq<char>>::empty());
        },
    }
}

/// Appends the entry lines of a card.
fn push_entry_details(out: &mut Vec<Vec<char>>, output: &str)
    ensures
        views(final(out)@) == views(old(out)@) + entry_details(output@),
{
    match json_array_len(output, "entries") {
        Some(n) => {
            let count = count_label(n, "item", "items");
            push_labelled(out, "Entries: ", &count);
            if json_flag(output, "truncated") == Some(true) {
                push_labelled(out, "Details: Truncated after ", &count);
            }
            assert(views(out@) =~= views(old(out)@) + entry_details(output@));
        },
        None => {
            assert(views(out@) =~= views(out@) + Seq::<Seq<char>>::empty());
        },
    }
}

/// Appends the content line of a card.
fn push_content_details(out: &mut Vec<Vec<char>>, output: &str)
    ensures
        views(final(out)@) == views(old(out)@) + content_details(output@),
{
    match json_text_field(output, "content") {
        Some(c) => {
            let chars = to_chars(c.as_str());
            let mut text = count_label(line_count(&chars), "line", "lines");
            push_str(&mut text, ", ");
            let count = count_label(chars.len(), "char", "chars");
            push_all(&mut text, &count);
            assert(json_text_field_of(output@, "content"@) == Some(chars@));
            assert(text@ =~= count_text(line_total(chars@), "line"@, "lines"@) + ", "@ + count_text(
                chars@.len(),
                "char"@,
                "chars"@,
            ));
            push_labelled(out, "Content: ", &text);
            assert("Content: "@ + text@ =~= "Content: "@ + count_text(line_total(chars@), "line"@, "lines"@)
                + ", "@ + count_text(chars@.len(), "char"@, "chars"@));
            assert(content_details(output@) =~= seq!["Content: "@ + text@]);
            assert(views(out@) =~= views(old(out)@) + content_details(output@));
        },
        None => {
            assert(views(out@) =~= views(out@) + Seq::<Seq<char>>::empty());
        },
    }
}

/// Appends the tools line of a card.
fn push_tools_details(out: &mut Vec<Vec<char>>, output: &str)
    ensures
        views(final(out)@) == views(old(out)@) + tools_details(output@),
{
    match json_array_len(output, "tools") {
        Some(n) => {
            let count = count_label(n, "tool", "tools");
            push_labelled(out, "Tools: ", &count);
            assert(views(out@) =~= views(old(out)@) + tools_details(output@));
        },
        None => {
            assert(views(out@) =~= views(out@) + Seq::<Seq<char>>::empty());
        },
    }
}

/// Appends the reason line of a card.
fn push_reason_details(out: &mut Vec<Vec<char>>, output: &str)
    ensures
        views(final(out)@) == views(old(out)@) + labelled("Reason: "@, shown_reason(output@)),
{
    match json_text_field(output, "reason") {
        Some(r) => {
            let chars = to_chars(r.as_str());
            let h = humanize_identifier(&chars);
            push_labelled(out, "Reason: ", &h);
            assert(views(out@) =~= views(old(out)@) + labelled("Reason: "@, shown_reason(output@)));
        },
        None => {
            assert(views(out@) =~= views(out@) + Seq::<Seq<char>>::empty());
        },
    }
}

/// Appends the project lines of a card.
fn push_project_details(out: &mut Vec<Vec<char>>, output: &str, saw_path: bool)
    ensures
        views(final(out)@) == views(old(out)@) + labelled(
            "Project: "@,
            json_member_text_of(output@, "project"@, "name"@),
        ) + if saw_path {
            Seq::<Seq<char>>::empty()
        } else {
            labelled("Path: "@, json_member_text_of(output@, "project"@, "path"@))
        },
{
    let name = json_member_text(output, "project", "name");
    push_optional(out, "Project: ", name);
    let ghost middle = views(out@);
    if !saw_path {
        let project_path = json_member_text(output, "project", "path");
        push_optional(out, "Path: ", project_path);
    } else {
        assert(views(out@) =~= middle + Seq::<Seq<char>>::empty());
    }
}

/// The detail lines of the card of a tool call with JSON `input` and
/// `output`.
pub fn tool_detail_lines(input: &str, output: &str) -> (result: Vec<Vec<char>>)
    ensures
        views(result@) == detail_lines(input@, output@),
{
    let mut details: Vec<Vec<char>> = Vec::new();
    push_reason_details(&mut details, output);
    let path = match json_text_field(output, "path") {
        Some(p) => Some(p),
        None => json_text_field(input, "path"),
    };
    assert(opt_chars(path) == shown_path(input@, output@));
    let saw_path = path.is_some();
    push_optional(&mut details, "Path: ", path);
    push_entry_details(&mut details, output);
    push_content_details(&mut details, output);
    push_tools_details(&mut details, output);
    push_project_details(&mut details, output, saw_path);
    assert(views(details@) =~= detail_lines(input@, output@));
    details
}

/// The lines of a tool card: its title, its status and its details.
pub open spec fn card_text(name: Seq<char>, input: Seq<char>, output: Seq<char>) -> Seq<
    Seq<char>,
> {
    seq![tool_title_text(name), "Status: "@ + status_text(output)] + detail_lines(input, output)
}

/// Describes a tool call as the lines of its card.
pub fn describe_tool(name: &Vec<char>, input: &str, output: &str) -> (result: Vec<Vec<char>>)
    ensures
        views(result@) == card_text(name@, input@, output@),
{
    let mut lines: Vec<Vec<char>> = Vec::new();
    lines.push(tool_title(name));
    let status = tool_status(output);
    push_labelled(&mut lines, "Status: ", &status);
    let mut details = tool_detail_lines(input, output);
    let ghost head = lines@;
    let ghost tail = details@;
    lines.append(&mut details);
    assert(lines@ == head + tail);
    assert(views(lines@) =~= views(head) + views(tail));
    assert(views(lines@) =~= card_text(name@, input@, output@));
    lines
}

/// The lines of a tool card `width` columns wide: top edge, one row per
/// line of the card, bottom edge and a blank separator.
pub open spec fn card_lines(name: Seq<char>, input: Seq<char>, output: Seq<char>, width: nat) -> Seq<
    LineView,
> {
    seq![seq![(box_edge('\u{250c}', '\u{2510}', width), Some(tool_style()))]] + card_text(
        name,
        input,
        output,
    ).map_values(|c: Seq<char>| seq![(box_row(c, width), Some(tool_style()))]) + seq![
        seq![(box_edge('\u{2514}', '\u{2518}', width), Some(tool_style()))],
        Seq::<SpanView>::empty(),
    ]
}

/// Renders a tool call as a card.
pub fn render_tool(name: &Vec<char>, input: &str, output: &str, width: usize) -> (result: Vec<
    StyledLine,
>)
    ensures
        line_views(result@) == card_lines(name@, input@, output@, width as nat),
{
    let card = describe_tool(name, input, output);
    let mut lines: Vec<StyledLine> = Vec::new();
    let top = tool_box_top(width);
    lines.push(single_span_line(&top, Some(tool_style())));
    let ghost head = line_views(lines@);
    let mut i: usize = 0;
    while i < card.len()
        invariant
            i <= card.len(),
            line_views(lines@) == head + views(card@).take(i as int).map_values(
                |c: Seq<char>| seq![(box_row(c, width as nat), Some(tool_style()))],
            ),
        decreases card.len() - i,
    {
        let row = tool_box_line(&card[i], width);
        let ghost before = line_views(lines@);
        lines.push(single_span_line(&row, Some(tool_style())));
        assert(line_views(lines@) =~= before.push(seq![(row@, Some(tool_style()))]));
        i = i + 1;
        assert(views(card@).take(i as int) =~= views(card@).take(i - 1).push(card@[i - 1]@));
        assert(line_views(lines@) =~= head + views(card@).take(i as int).map_values(
            |c: Seq<char>| seq![(box_row(c, width as nat), Some(tool_style()))],
        ));
    }
    let ghost rows = line_views(lines@);
    let bottom = tool_box_bottom(width);
    lines.push(single_span_line(&bottom, Some(tool_style())));
    lines.push(blank_line());
    assert(line_views(lines@) =~= rows + seq![
        seq![(bottom@, Some(tool_style()))],
        Seq::<SpanView>::empty(),
    ]);
    assert(views(card@).take(i as int) =~= views(card@));
    assert(line_views(lines@) =~= card_lines(name@, input@, output@, width as nat));
    lines
}

// ----------------------------------------------------------------------------
// Trusted items: display widths and case mapping
// ----------------------------------------------------------------------------

/// The columns `unicode-width` gives a string (`UnicodeWidthStr::width`).
/// Its rules (East Asian width, emoji and script ligatures) take pages;
/// the result depends on the characters alone.
pub uninterp spec fn display_width_of(text: Seq<char>) -> usize;

/// The columns `unicode-width` gives a character
/// (`UnicodeWidthChar::width`), `None` for control characters.
pub uninterp spec fn char_width_of(c: char) -> Option<usize>;

/// The upper-case mapping of a character (`char::to_uppercase`), one or
/// more characters.
pub uninterp spec fn uppercase_of(c: char) -> Seq<char>;

/// A printable ASCII character, from the space to `~`.
pub open spec fn printable_ascii(c: char) -> bool {
    ' ' <= c && c <= '~'
}

/// Calls `UnicodeWidthStr::width` on the string of `text`.  The result is
/// the named width of those characters; as the crate's rules and its
/// ASCII path show, a text of printable ASCII characters takes one column
/// per character.
#[verifier::external_body]
fn display_width(text: &Vec<char>) -> (width: usize)
    ensures
        width == display_width_of(text@),
        (forall|i: int| 0 <= i < text@.len() ==> printable_ascii(#[trigger] text@[i])) ==> width
            == text@.len(),
{
    let s: String = text.iter().collect();
    UnicodeWidthStr::width(s.as_str())
}

/// Calls `UnicodeWidthChar::width`.  The result is the named width of
/// `c`; as the crate's ASCII path shows, a printable ASCII character takes
/// one column and a character below the space is a control character.
#[verifier::external_body]
fn char_width(c: char) -> (width: Option<usize>)
    ensures
        width == char_width_of(c),
        printable_ascii(c) ==> width == Some(1usize),
        c < ' ' ==> width is None,
{
    UnicodeWidthChar::width(c)
}

/// Calls std's `char::to_uppercase` and collects the characters. The
/// contract names the result and states, as std documents, that an ASCII
/// lower-case letter maps to its upper-case letter and any other ASCII
/// character to itself.
#[verifier::external_body]
fn uppercase(c: char) -> (result: Vec<char>)
    ensures
        result@ == uppercase_of(c),
        'a' <= c <= 'z' ==> result@ == seq![((c as u32) - 32) as char],
        (c as u32) < 128 && !('a' <= c <= 'z') ==> result@ == seq![c],
{
    c.to_uppercase().collect()
}

// ----------------------------------------------------------------------------
// Trusted items: reading a tool call's JSON
// ----------------------------------------------------------------------------

/// The string held at `key` of the JSON object `json`, if `json` parses
/// and holds a string there (`Value::get` then `Value::as_str`).
pub uninterp spec fn json_text_field_of(json: Seq<char>, key: Seq<char>) -> Option<Seq<char>>;

/// The length of the array held at `key` of the JSON object `json`
/// (`Value::get` then `Value::as_array`).
pub uninterp spec fn json_array_len_of(json: Seq<char>, key: Seq<char>) -> Option<usize>;

/// The boolean held at `key` of the JSON object `json` (`Value::get` then
/// `Value::as_bool`).
pub uninterp spec fn json_flag_of(json: Seq<char>, key: Seq<char>) -> Option<bool>;

/// The string held at `inner` of the object held at `outer` of the JSON
/// object `json` (`as_object` on the outer value, `as_str` on the inner).
pub uninterp spec fn json_member_text_of(json: Seq<char>, outer: Seq<char>, inner: Seq<char>) -> Option<Seq<char>>;

/// Parses `json` with `serde_json` and reads the string at `key`; the
/// contract claims only that the result is the named value.
#[verifier::external_body]
fn json_text_field(json: &str, key: &str) -> (result: Option<String>)
    ensures
        opt_chars(result) == json_text_field_of(json@, key@),
{
    let value: serde_json::Value = serde_json::from_str(json).ok()?;
    value.get(key)?.as_str().map(String::from)
}

/// Parses `json` with `serde_json` and measures the array at `key`; the
/// contract claims only that the result is the named value.
#[verifier::external_body]
fn json_array_len(json: &str, key: &str) -> (result: Option<usize>)
    ensures
        result == json_array_len_of(json@, key@),
{
    let value: serde_json::Value = serde_json::from_str(json).ok()?;
    value.get(key)?.as_array().map(Vec::len)
}

/// Parses `json` with `serde_json` and reads the boolean at `key`; the
/// contract claims only that the result is the named value.
#[verifier::external_body]
fn json_flag(json: &str, key: &str) -> (result: Option<bool>)
    ensures
        result == json_flag_of(json@, key@),
{
    let value: serde_json::Value = serde_json::from_str(json).ok()?;
    value.get(key)?.as_bool()
}

/// Parses `json` with `serde_json` and reads the string at `inner` of the
/// object at `outer`; the contract claims only that the result is the
/// named value.
#[verifier::external_body]
fn json_member_text(json: &str, outer: &str, inner: &str) -> (result: Option<String>)
    ensures
        opt_chars(result) == json_member_text_of(json@, outer@, inner@),
{
    let value: serde_json::Value = serde_json::from_str(json).ok()?;
    value.get(outer)?.as_object()?.get(inner)?.as_str().map(String::from)
}

// ----------------------------------------------------------------------------
// Trusted items: markdown parsing
// ----------------------------------------------------------------------------

/// An element of markdown as `pulldown-cmark` tells it apart
/// (`pulldown_cmark::TagEnd`, one variant each).
#[derive(Clone, Copy, Debug, PartialEq, Eq, Structural)]
pub enum RawMarkdownTag {
    Paragraph,
    Heading,
    BlockQuote,
    CodeBlock,
    HtmlBlock,
    List,
    Item,
    FootnoteDefinition,
    DefinitionList,
    DefinitionListTitle,
    DefinitionListDefinition,
    Table,
    TableHead,
    TableRow,
    TableCell,
    Emphasis,
    Strong,
    Strikethrough,
    Superscript,
    Subscript,
    Link,
    Image,
    MetadataBlock,
}

/// An event of a `pulldown-cmark` parse (`pulldown_cmark::Event`, one
/// variant each; the start of a list, which carries its first number, is
/// told apart from the start of another element).
#[derive(Clone, Debug, PartialEq, Eq)]
pub enum RawMarkdownEvent {
    StartList(Option<u64>),
    Start(RawMarkdownTag),
    End(RawMarkdownTag),
    Text(String),
    Code(String),
    InlineMath(String),
    DisplayMath(String),
    Html(String),
    InlineHtml(String),
    FootnoteReference(String),
    SoftBreak,
    HardBreak,
    Rule,
    TaskListMarker(bool),
}

/// The element the transcript reads a parsed element as: a table's head is
/// read as a row, and elements it does not render are other.
pub open spec fn tag_of(tag: RawMarkdownTag) -> MarkdownTag {
    match tag {
        RawMarkdownTag::Paragraph => MarkdownTag::Paragraph,
        RawMarkdownTag::Heading => MarkdownTag::Heading,
        RawMarkdownTag::CodeBlock => MarkdownTag::CodeBlock,
        RawMarkdownTag::List => MarkdownTag::List,
        RawMarkdownTag::Item => MarkdownTag::Item,
        RawMarkdownTag::BlockQuote => MarkdownTag::BlockQuote,
        RawMarkdownTag::Table => MarkdownTag::Table,
        RawMarkdownTag::TableHead | RawMarkdownTag::TableRow => MarkdownTag::TableRow,
        RawMarkdownTag::TableCell => MarkdownTag::TableCell,
        RawMarkdownTag::Emphasis => MarkdownTag::Emphasis,
        RawMarkdownTag::Strong => MarkdownTag::Strong,
        RawMarkdownTag::Strikethrough => MarkdownTag::Strikethrough,
        RawMarkdownTag::Link => MarkdownTag::Link,
        RawMarkdownTag::Image => MarkdownTag::Image,
        _ => MarkdownTag::Other,
    }
}

/// The event the transcript reads a parsed event as: block and inline
/// HTML are both HTML, soft and hard breaks are both breaks, and math is
/// other.
pub open spec fn merged_event(event: RawMarkdownEvent) -> MarkdownEvent {
    match event {
        RawMarkdownEvent::StartList(first) => MarkdownEvent::StartList(first),
        RawMarkdownEvent::Start(tag) => MarkdownEvent::Start(tag_of(tag)),
        RawMarkdownEvent::End(tag) => MarkdownEvent::End(tag_of(tag)),
        RawMarkdownEvent::Text(t) => MarkdownEvent::Text(t),
        RawMarkdownEvent::Code(t) => MarkdownEvent::Code(t),
        RawMarkdownEvent::Html(t) => MarkdownEvent::Html(t),
        RawMarkdownEvent::InlineHtml(t) => MarkdownEvent::Html(t),
        RawMarkdownEvent::FootnoteReference(t) => MarkdownEvent::FootnoteReference(t),
        RawMarkdownEvent::SoftBreak => MarkdownEvent::Break,
        RawMarkdownEvent::HardBreak => MarkdownEvent::Break,
        RawMarkdownEvent::Rule => MarkdownEvent::Rule,
        RawMarkdownEvent::TaskListMarker(checked) => MarkdownEvent::TaskListMarker(checked),
        RawMarkdownEvent::InlineMath(_) => MarkdownEvent::Other,
        RawMarkdownEvent::DisplayMath(_) => MarkdownEvent::Other,
    }
}

fn markdown_tag(tag: RawMarkdownTag) -> (result: MarkdownTag)
    ensures
        result == tag_of(tag),
{
    match tag {
        RawMarkdownTag::Paragraph => MarkdownTag::Paragraph,
        RawMarkdownTag::Heading => MarkdownTag::Heading,
        RawMarkdownTag::CodeBlock => MarkdownTag::CodeBlock,
        RawMarkdownTag::List => MarkdownTag::List,
        RawMarkdownTag::Item => MarkdownTag::Item,
        RawMarkdownTag::BlockQuote => MarkdownTag::BlockQuote,
        RawMarkdownTag::Table => MarkdownTag::Table,
        RawMarkdownTag::TableHead | RawMarkdownTag::TableRow => MarkdownTag::TableRow,
        RawMarkdownTag::TableCell => MarkdownTag::TableCell,
        RawMarkdownTag::Emphasis => MarkdownTag::Emphasis,
        RawMarkdownTag::Strong => MarkdownTag::Strong,
        RawMarkdownTag::Strikethrough => MarkdownTag::Strikethrough,
        RawMarkdownTag::Link => MarkdownTag::Link,
        RawMarkdownTag::Image => MarkdownTag::Image,
        _ => MarkdownTag::Other,
    }
}

fn markdown_event(event: RawMarkdownEvent) -> (result: MarkdownEvent)
    ensures
        result == merged_event(event),
{
    match event {
        RawMarkdownEvent::StartList(first) => MarkdownEvent::StartList(first),
        RawMarkdownEvent::Start(tag) => MarkdownEvent::Start(markdown_tag(tag)),
        RawMarkdownEvent::End(tag) => MarkdownEvent::End(markdown_tag(tag)),
        RawMarkdownEvent::Text(t) => MarkdownEvent::Text(t),
        RawMarkdownEvent::Code(t) => MarkdownEvent::Code(t),
        RawMarkdownEvent::Html(t) => MarkdownEvent::Html(t),
        RawMarkdownEvent::InlineHtml(t) => MarkdownEvent::Html(t),
        RawMarkdownEvent::FootnoteReference(t) => MarkdownEvent::FootnoteReference(t),
        RawMarkdownEvent::SoftBreak => MarkdownEvent::Break,
        RawMarkdownEvent::HardBreak => MarkdownEvent::Break,
        RawMarkdownEvent::Rule => MarkdownEvent::Rule,
        RawMarkdownEvent::TaskListMarker(checked) => MarkdownEvent::TaskListMarker(checked),
        RawMarkdownEvent::InlineMath(_) => MarkdownEvent::Other,
        RawMarkdownEvent::DisplayMath(_) => MarkdownEvent::Other,
    }
}

/// The events the transcript reads from a markdown text: `pulldown-cmark`'s
/// events with tables, strikethrough and task lists enabled, each read as
/// [`merged_event`] says.
pub open spec fn markdown_events_of(text: Seq<char>) -> Seq<MarkdownEvent> {
    raw_markdown_events_of(text, true, true, true).map_values(|e: RawMarkdownEvent| merged_event(e))
}

/// The events the transcript reads from `text`.
fn markdown_events(text: &str) -> (events: Vec<MarkdownEvent>)
    ensures
        events@ == markdown_events_of(text@),
{
    let mut raw = raw_markdown_events(text, true, true, true);
    let ghost all = raw@;
    let ghost n = all.len();
    let mut reversed: Vec<MarkdownEvent> = Vec::new();
    while raw.len() > 0
        invariant
            n == all.len(),
            raw@ == all.take(raw@.len() as int),
            reversed@.len() == n - raw@.len(),
            forall|j: int| 0 <= j < reversed@.len() ==> #[trigger] reversed@[j] == merged_event(all[n - 1 - j]),
        decreases raw.len(),
    {
        let ghost before = raw@;
        let e = raw.pop().unwrap();
        assert(e == all[n - 1 - reversed@.len()]);
        assert(raw@ =~= all.take(raw@.len() as int));
        reversed.push(markdown_event(e));
    }
    let mut events: Vec<MarkdownEvent> = Vec::new();
    while reversed.len() > 0
        invariant
            n == all.len(),
            reversed@.len() + events@.len() == n,
            forall|j: int| 0 <= j < reversed@.len() ==> #[trigger] reversed@[j] == merged_event(all[n - 1 - j]),
            forall|k: int| 0 <= k < events@.len() ==> #[trigger] events@[k] == merged_event(all[k]),
        decreases reversed.len(),
    {
        let e = reversed.pop().unwrap();
        events.push(e);
    }
    assert(events@ =~= all.map_values(|e: RawMarkdownEvent| merged_event(e)));
    events
}

/// The events `pulldown-cmark` reads from `text` with tables,
/// strikethrough and task lists enabled as the flags say. CommonMark
/// parsing takes pages; the result depends on the text and the flags alone.
pub uninterp spec fn raw_markdown_events_of(text: Seq<char>, tables: bool, strikethrough: bool, task_lists: bool) -> Seq<RawMarkdownEvent>;

/// `pulldown_cmark::Event`, carried opaquely.
#[verifier::external_type_specification]
#[verifier::external_body]
pub struct ExMarkdownEvent<'a>(Event<'a>);

/// `pulldown_cmark::Tag`, carried opaquely.
#[verifier::external_type_specification]
#[verifier::external_body]
pub struct ExMarkdownTag<'a>(Tag<'a>);

/// `pulldown_cmark::TagEnd`, carried opaquely.
#[verifier::external_type_specification]
#[verifier::external_body]
pub struct ExMarkdownTagEnd(TagEnd);

/// Runs `pulldown_cmark::Parser::new_ext` on `text` with the options the
/// flags set (`Options::set` of `ENABLE_TABLES`, `ENABLE_STRIKETHROUGH` and
/// `ENABLE_TASKLISTS`), converting each event with [`raw_event`]: the
/// named events of `text` under those flags.
#[verifier::external_body]
fn raw_markdown_events(text: &str, tables: bool, strikethrough: bool, task_lists: bool) -> (events: Vec<RawMarkdownEvent>)
    ensures
        events@ == raw_markdown_events_of(text@, tables, strikethrough, task_lists),
{
    let mut options = Options::empty();
    options.set(Options::ENABLE_TABLES, tables);
    options.set(Options::ENABLE_STRIKETHROUGH, strikethrough);
    options.set(Options::ENABLE_TASKLISTS, task_lists);
    Parser::new_ext(text, options).map(raw_event).collect()
}

/// Converts a `pulldown_cmark::Event` variant by variant, for
/// [`raw_markdown_events`]; events with text go to [`raw_text_event`].
#[verifier::external_body]
fn raw_event(event: Event<'_>) -> RawMarkdownEvent {
    match event {
        Event::Start(tag) => raw_start(tag),
        Event::End(tag) => RawMarkdownEvent::End(raw_tag(tag)),
        Event::SoftBreak => RawMarkdownEvent::SoftBreak,
        Event::HardBreak => RawMarkdownEvent::HardBreak,
        Event::Rule => RawMarkdownEvent::Rule,
        Event::TaskListMarker(checked) => RawMarkdownEvent::TaskListMarker(checked),
        other => raw_text_event(other),
    }
}

/// Converts a `pulldown_cmark::Event` that carries text, variant by
/// variant; it hands any other event back to [`raw_event`].
#[verifier::external_body]
fn raw_text_event(event: Event<'_>) -> RawMarkdownEvent {
    match event {
        Event::Text(t) => RawMarkdownEvent::Text(t.into_string()),
        Event::Code(t) => RawMarkdownEvent::Code(t.into_string()),
        Event::InlineMath(t) => RawMarkdownEvent::InlineMath(t.into_string()),
        Event::DisplayMath(t) => RawMarkdownEvent::DisplayMath(t.into_string()),
        Event::Html(t) => RawMarkdownEvent::Html(t.into_string()),
        Event::InlineHtml(t) => RawMarkdownEvent::InlineHtml(t.into_string()),
        Event::FootnoteReference(t) => RawMarkdownEvent::FootnoteReference(t.into_string()),
        other => raw_event(other),
    }
}

/// Converts a `pulldown_cmark::Tag` that starts an element: a list keeps
/// its first number; another element is converted through `Tag::to_end`.
#[verifier::external_body]
fn raw_start(tag: Tag<'_>) -> RawMarkdownEvent {
    match tag {
        Tag::List(first) => RawMarkdownEvent::StartList(first),
        other => RawMarkdownEvent::Start(raw_tag(other.to_end())),
    }
}

/// Converts a block-level `pulldown_cmark::TagEnd`, variant by variant; it
/// hands table and inline elements to [`raw_inline_tag`].
#[verifier::external_body]
fn raw_tag(tag: TagEnd) -> RawMarkdownTag {
    match tag {
        TagEnd::Paragraph => RawMarkdownTag::Paragraph,
        TagEnd::Heading(_) => RawMarkdownTag::Heading,
        TagEnd::BlockQuote(_) => RawMarkdownTag::BlockQuote,
        TagEnd::CodeBlock => RawMarkdownTag::CodeBlock,
        TagEnd::HtmlBlock => RawMarkdownTag::HtmlBlock,
        TagEnd::List(_) => RawMarkdownTag::List,
        TagEnd::Item => RawMarkdownTag::Item,
        TagEnd::FootnoteDefinition => RawMarkdownTag::FootnoteDefinition,
        TagEnd::DefinitionList => RawMarkdownTag::DefinitionList,
        TagEnd::DefinitionListTitle => RawMarkdownTag::DefinitionListTitle,
        TagEnd::DefinitionListDefinition => RawMarkdownTag::DefinitionListDefinition,
        TagEnd::MetadataBlock(_) => RawMarkdownTag::MetadataBlock,
        other => raw_inline_tag(other),
    }
}

/// Converts a table or inline `pulldown_cmark::TagEnd`, variant by
/// variant; it hands any other element back to [`raw_tag`].
#[verifier::external_body]
fn raw_inline_tag(tag: TagEnd) -> RawMarkdownTag {
    match tag {
        TagEnd::Table => RawMarkdownTag::Table,
        TagEnd::TableHead => RawMarkdownTag::TableHead,
        TagEnd::TableRow => RawMarkdownTag::TableRow,
        TagEnd::TableCell => RawMarkdownTag::TableCell,
        TagEnd::Emphasis => RawMarkdownTag::Emphasis,
        TagEnd::Strong => RawMarkdownTag::Strong,
        TagEnd::Strikethrough => RawMarkdownTag::Strikethrough,
        TagEnd::Superscript => RawMarkdownTag::Superscript,
        TagEnd::Subscript => RawMarkdownTag::Subscript,
        TagEnd::Link => RawMarkdownTag::Link,
        TagEnd::Image => RawMarkdownTag::Image,
        other => raw_tag(other),
    }
}

} // verus!
