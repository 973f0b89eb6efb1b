//! The default renderer: a walk over the document tree that lays its text out
//! in word-wrapped lines.

use crate::document::{well_formed, Data, Document, Node};
use crate::renderer::line_break::{
    checked_lengths, gaps_of, ints, is_breaking, is_partition, lemma_line_lengths_break,
    lemma_one_fragment_one_line, lemma_total_monotonic, lemma_total_take, lengths_view,
    line_lengths, optimal_fit, optimal_fit_lines, penalties_of, total, widths_of,
};
use crate::renderer::text::{
    char_is_whitespace, chars_of, is_whitespace, split_whitespace, split_words, string_from_chars,
};
use crate::renderer::{
    line_views, line_width, views, RenderedDocument, Word, WordView, SENTINEL,
};
use crate::style::{Color, Modifier, Style};
use vstd::prelude::*;

verus! {

/// Columns by which the lines of a disambiguation notice are indented.
pub const DISAMBIGUATION_PADDING: u8 = 1;

/// The character put before every line of a disambiguation notice.
pub const DISAMBIGUATION_PREFIX: char = '|';

/// The kind of region that text is in.
#[derive(Clone, Copy, Debug, PartialEq, Eq, Structural)]
pub enum Context {
    Normal,
    Header,
    WikiLink,
    MediaLink,
    ExternalLink,
    RedLink,
    Reflink,
}

/// The state of a layout in progress.
pub struct Renderer {
    pub current_modifier: Style,
    pub rendered_lines: Vec<Vec<Word>>,
    pub current_line: Vec<Word>,
    pub contexts: Vec<Context>,
    pub width: u16,
    pub left_padding: u8,
    pub prefix: Option<char>,
}

/// The state of a layout as a mathematical value.
pub struct Layout {
    pub current_modifier: Style,
    pub rendered_lines: Seq<Seq<WordView>>,
    pub current_line: Seq<WordView>,
    pub contexts: Seq<Context>,
    pub width: u16,
    pub left_padding: u8,
    pub prefix: Option<char>,
}

impl View for Renderer {
    type V = Layout;

    open spec fn view(&self) -> Layout {
        Layout {
            current_modifier: self.current_modifier,
            rendered_lines: line_views(self.rendered_lines@),
            current_line: views(self.current_line@),
            contexts: self.contexts@,
            width: self.width,
            left_padding: self.left_padding,
            prefix: self.prefix,
        }
    }
}

/// The word that stands for `n` columns of space.
pub open spec fn whitespace_word(n: int) -> WordView {
    WordView {
        index: SENTINEL as int,
        content: Seq::empty(),
        style: Style::new(),
        width: 0,
        whitespace_width: n,
        penalty_width: 0,
    }
}

/// The word that shows `content` as the prefix of a line: one column wide,
/// with one column of space after it.
pub open spec fn prefix_word(content: Seq<char>) -> WordView {
    WordView {
        index: SENTINEL as int,
        content,
        style: Style::new(),
        width: 1,
        whitespace_width: 1,
        penalty_width: 0,
    }
}

/// The colour and modifiers that a region starts from.
pub open spec fn context_style(context: Context) -> Style {
    match context {
        Context::Header => Style::new().fg(Color::Red),
        Context::RedLink => Style::new().fg(Color::Red),
        Context::Reflink => Style::new().fg(Color::Gray),
        _ => Style::new(),
    }
}

impl Layout {
    /// The layout that a render starts from.
    pub open spec fn start(width: u16) -> Layout {
        Layout {
            current_modifier: Style::new(),
            rendered_lines: Seq::empty(),
            current_line: Seq::empty(),
            contexts: Seq::empty(),
            width,
            left_padding: 0,
            prefix: None,
        }
    }

    /// Whether the current line ends in a sentinel word.
    pub open spec fn is_last_whitespace(self) -> bool {
        self.current_line.len() > 0 && self.current_line.last().is_sentinel()
    }

    /// Whether the current line is empty and the last finished line is empty
    /// too.
    pub open spec fn is_last_empty(self) -> bool {
        self.current_line.len() == 0 && self.rendered_lines.len() > 0
            && self.rendered_lines.last().len() == 0
    }

    /// One column of space at the end of the current line, unless the line
    /// ends in a sentinel already.
    pub open spec fn add_whitespace(self) -> Layout {
        if self.is_last_whitespace() {
            self
        } else {
            Layout { current_line: self.current_line.push(whitespace_word(1)), ..self }
        }
    }

    /// `modifier` switched on for the text that follows.
    pub open spec fn add_modifier(self, modifier: Modifier) -> Layout {
        Layout { current_modifier: self.current_modifier.add_modifier(modifier), ..self }
    }

    /// `modifier` switched off for the text that follows.
    pub open spec fn remove_modifier(self, modifier: Modifier) -> Layout {
        Layout { current_modifier: self.current_modifier.remove_modifier(modifier), ..self }
    }

    /// The current line moved to the finished lines, unless it is empty.
    pub open spec fn clear_line(self) -> Layout {
        if self.current_line.len() == 0 {
            self
        } else {
            Layout {
                rendered_lines: self.rendered_lines.push(self.current_line),
                current_line: Seq::empty(),
                ..self
            }
        }
    }

    /// The current line finished, and an empty line after it.
    pub open spec fn add_empty_line(self) -> Layout {
        let cleared = self.clear_line();
        Layout { rendered_lines: cleared.rendered_lines.push(Seq::empty()), ..cleared }
    }

    /// An empty line at the end, added only where there is none.
    pub open spec fn ensure_empty_line(self) -> Layout {
        if self.is_last_empty() {
            self
        } else {
            self.add_empty_line()
        }
    }

    /// A region entered.
    pub open spec fn push_context(self, context: Context) -> Layout {
        Layout { contexts: self.contexts.push(context), ..self }
    }

    /// The innermost region, `Normal` outside any.
    pub open spec fn context(self) -> Context {
        if self.contexts.len() == 0 {
            Context::Normal
        } else {
            self.contexts.last()
        }
    }

    /// The innermost region left.
    pub open spec fn pop_context(self) -> Layout {
        if self.contexts.len() == 0 {
            self
        } else {
            Layout { contexts: self.contexts.drop_last(), ..self }
        }
    }

    /// The style of text emitted now: the colour of the innermost region,
    /// patched with the modifiers in force.
    pub open spec fn current_style(self) -> Style {
        context_style(self.context()).patch(self.current_modifier)
    }
}

/// The prefix word of the first line of a batch: `padding` columns of space,
/// then the prefix character.
pub open spec fn first_prefix(padding: int, prefix: char) -> Seq<char> {
    Seq::new(padding as nat, |i: int| ' ').push(prefix)
}

/// The lines that `lengths` cut `words` into.
pub open spec fn cut(words: Seq<WordView>, lengths: Seq<int>) -> Seq<Seq<WordView>> {
    Seq::new(
        lengths.len(),
        |k: int| words.subrange(total(lengths.take(k)), total(lengths.take(k + 1))),
    )
}

impl Layout {
    /// Whether a word of `first_width` columns fits in what is left of the
    /// current line.
    pub open spec fn fits(self, first_width: int) -> bool {
        first_width <= self.width - line_width(self.current_line)
    }

    /// The layout made ready for a batch whose first word is `first_width`
    /// columns wide: the current line is finished where that word does not
    /// fit on it, and a line that starts fresh gets the prefix, if one is set.
    pub open spec fn start_batch(self, first_width: int) -> Layout {
        let opened = if self.fits(first_width) {
            self
        } else {
            self.clear_line()
        };
        if opened.current_line.len() == 0 && self.prefix is Some {
            Layout {
                current_line: seq![
                    prefix_word(first_prefix(self.left_padding as int, self.prefix->0)),
                ],
                ..opened
            }
        } else {
            opened
        }
    }

    /// The columns that the first line of such a batch has room for: what is
    /// left of the current line, or, on a fresh line, the width less the
    /// padding and two columns for a prefix; never less than nothing.
    pub open spec fn batch_budget(self, first_width: int) -> int {
        let room = if self.fits(first_width) {
            self.width - line_width(self.current_line)
        } else {
            self.width as int
        };
        let fresh = !self.fits(first_width) || self.current_line.len() == 0;
        let budget = if fresh {
            room - self.left_padding - if self.prefix is Some {
                2int
            } else {
                0int
            }
        } else {
            room
        };
        if budget < 0 {
            0
        } else {
            budget
        }
    }

    /// A line after the first of a batch: the padding, the prefix if one is
    /// set, then the words.
    pub open spec fn continuation(self, line: Seq<WordView>) -> Seq<WordView> {
        let lead = seq![whitespace_word(self.left_padding as int)];
        match self.prefix {
            Some(c) => lead.push(prefix_word(seq![c])) + line,
            None => lead + line,
        }
    }

    /// The layout after `words` were put on lines as `fit` says: the first
    /// line continues the current line, every line but the last is finished,
    /// and the last is the new current line.
    pub open spec fn place_lines(self, words: Seq<WordView>, fit: Option<Seq<int>>) -> Layout {
        let lines = cut(words, line_lengths(fit, words.len() as int));
        let first = self.current_line + lines[0];
        if lines.len() == 1 {
            Layout { current_line: first, ..self }
        } else {
            let flushed = if first.len() == 0 {
                self.rendered_lines
            } else {
                self.rendered_lines.push(first)
            };
            let middle = Seq::new(
                (lines.len() - 2) as nat,
                |k: int| self.continuation(lines[k + 1]),
            );
            Layout {
                rendered_lines: flushed + middle,
                current_line: self.continuation(lines.last()),
                ..self
            }
        }
    }

    /// The layout after a batch of words was wrapped and appended.
    pub open spec fn wrap_append(self, words: Seq<WordView>) -> Layout {
        if words.len() == 0 {
            self
        } else {
            let fit = optimal_fit(
                widths_of(words),
                gaps_of(words),
                penalties_of(words),
                self.batch_budget(words[0].width),
                self.width as int,
            );
            self.start_batch(words[0].width).place_lines(words, fit)
        }
    }
}

/// The width of a line of words is not negative, and no prefix of the line
/// is wider than the line.
pub proof fn lemma_line_width_monotonic(line: Seq<Word>, k: int)
    requires
        0 <= k <= line.len(),
    ensures
        0 <= line_width(views(line).take(k)) <= line_width(views(line)),
    decreases line.len() - k,
{
    if k == line.len() {
        assert(views(line).take(k) =~= views(line));
        lemma_line_width_nonnegative(line);
    } else {
        assert(views(line).take(k + 1).drop_last() =~= views(line).take(k));
        lemma_line_width_monotonic(line, k + 1);
        assert(views(line).take(k) =~= views(line.take(k)));
        lemma_line_width_nonnegative(line.take(k));
    }
}

/// The width of a line of words is not negative.
pub proof fn lemma_line_width_nonnegative(line: Seq<Word>)
    ensures
        0 <= line_width(views(line)),
    decreases line.len(),
{
    if line.len() > 0 {
        assert(views(line).drop_last() =~= views(line.drop_last()));
        lemma_line_width_nonnegative(line.drop_last());
    }
}

/// Whether a text that starts with `c` closes up to what stands before it.
pub open spec fn is_closing(c: char) -> bool {
    c == ',' || c == '.' || c == '"' || c == '\''
}

/// The words of a text run of node `index`: one per run of characters that
/// are not white space, as wide as it has characters, each followed by one
/// column of space; the last one only where the text ends in white space.
pub open spec fn text_words(contents: Seq<char>, index: int, style: Style) -> Seq<WordView> {
    let pieces = split_words(contents);
    let trailing = contents.len() > 0 && is_whitespace(contents.last());
    Seq::new(
        pieces.len(),
        |k: int|
            WordView {
                index,
                content: pieces[k],
                style,
                width: pieces[k].len() as int,
                whitespace_width: if k + 1 < pieces.len() || trailing {
                    1int
                } else {
                    0int
                },
                penalty_width: 0,
            },
    )
}

/// Whether a node of this kind is a block: set off from what is around it
/// by an empty line before and after.
pub open spec fn is_block(data: Data) -> bool {
    data is Section || data is Header || data is Division || data is Paragraph || data is Hatnote
        || data is RedirectMessage || data is Disambiguation || data is OrderedList
        || data is UnorderedList || data is ListItem || data is DescriptionList
        || data is DescriptionListTerm || data is DescriptionListDescription
}

impl Layout {
    /// The layout without the space at the end of the current line, where
    /// `contents` starts with closing punctuation and the line ends in a
    /// sentinel.
    pub open spec fn retract_space(self, contents: Seq<char>) -> Layout {
        if contents.len() > 0 && is_closing(contents[0]) && self.is_last_whitespace() {
            Layout { current_line: self.current_line.drop_last(), ..self }
        } else {
            self
        }
    }

    /// The layout after the text run `contents` of node `index`.
    pub open spec fn text(self, contents: Seq<char>, index: int) -> Layout {
        let closed = self.retract_space(contents);
        closed.wrap_append(text_words(contents, index, closed.current_style()))
    }

    /// The region and modifiers that a node of this kind opens.
    pub open spec fn enter(self, data: Data) -> Layout {
        match data {
            Data::Header { .. } => self.push_context(Context::Header).add_modifier(Modifier::Bold),
            Data::Reflink => self.push_context(Context::Reflink).add_modifier(Modifier::Italic),
            Data::Disambiguation => Layout {
                left_padding: DISAMBIGUATION_PADDING,
                prefix: Some(DISAMBIGUATION_PREFIX),
                ..self.add_modifier(Modifier::Italic)
            },
            Data::Bold => self.add_modifier(Modifier::Bold),
            Data::Italic => self.add_modifier(Modifier::Italic),
            Data::WikiLink { .. } => self.push_context(Context::WikiLink).add_modifier(
                Modifier::Underlined,
            ),
            Data::RedLink => self.push_context(Context::RedLink).add_modifier(
                Modifier::Italic,
            ).add_modifier(Modifier::Underlined),
            Data::MediaLink => self.push_context(Context::MediaLink).add_modifier(
                Modifier::Italic,
            ).add_modifier(Modifier::Underlined),
            Data::ExternalLink => self.push_context(Context::ExternalLink).add_modifier(
                Modifier::Italic,
            ).add_modifier(Modifier::Underlined),
            _ => self,
        }
    }

    /// The layout on entering node `index`, before its children.
    pub open spec fn pre_children(self, data: Data, index: int) -> Layout {
        match data {
            Data::Text { contents } => self.text(contents@, index),
            _ => if is_block(data) {
                self.enter(data).ensure_empty_line()
            } else {
                self.enter(data)
            },
        }
    }

    /// The region and modifiers that a node of this kind closes, and the
    /// space that follows an inline element.
    pub open spec fn leave(self, data: Data) -> Layout {
        match data {
            Data::Header { .. } => self.remove_modifier(Modifier::Bold).pop_context(),
            Data::Span => self.add_whitespace(),
            Data::Reflink => self.add_whitespace().pop_context().remove_modifier(
                Modifier::Italic,
            ),
            Data::Disambiguation => {
                let plain = self.remove_modifier(Modifier::Italic);
                Layout {
                    left_padding: if plain.left_padding >= DISAMBIGUATION_PADDING {
                        (plain.left_padding - DISAMBIGUATION_PADDING) as u8
                    } else {
                        0u8
                    },
                    prefix: None,
                    ..plain
                }
            },
            Data::Bold => self.remove_modifier(Modifier::Bold),
            Data::Italic => self.remove_modifier(Modifier::Italic),
            Data::WikiLink { .. } => self.pop_context().remove_modifier(
                Modifier::Underlined,
            ).add_whitespace(),
            Data::RedLink => self.pop_context().remove_modifier(Modifier::Italic).remove_modifier(
                Modifier::Underlined,
            ).add_whitespace(),
            Data::MediaLink => self.pop_context().remove_modifier(Modifier::Italic).remove_modifier(
                Modifier::Underlined,
            ).add_whitespace(),
            Data::ExternalLink => self.pop_context().remove_modifier(
                Modifier::Italic,
            ).remove_modifier(Modifier::Underlined).add_whitespace(),
            _ => self,
        }
    }

    /// The layout on leaving a node, after its children.
    pub open spec fn post_children(self, data: Data) -> Layout {
        if is_block(data) {
            self.leave(data).ensure_empty_line()
        } else {
            self.leave(data)
        }
    }
}

/// The layout after the subtree of node `index` was walked: the node is
/// entered, its children are walked in order, and the node is left.
pub open spec fn render_node(nodes: Seq<Node>, index: int, layout: Layout) -> Layout
    decreases nodes[index].last_descendant - index, 1int, 0int,
{
    if well_formed(nodes) && 0 <= index < nodes.len() {
        render_children(
            nodes,
            index,
            index + 1,
            layout.pre_children(nodes[index].data, index),
        ).post_children(nodes[index].data)
    } else {
        layout
    }
}

/// The layout after the children of `parent` from `child` on were walked.
pub open spec fn render_children(nodes: Seq<Node>, parent: int, child: int, layout: Layout) -> Layout
    decreases nodes[parent].last_descendant - parent, 0int, nodes[parent].last_descendant + 1 - child,
{
    if well_formed(nodes) && 0 <= parent < child <= nodes[parent].last_descendant && parent
        < nodes.len() {
        render_children(
            nodes,
            parent,
            nodes[child].last_descendant + 1,
            render_node(nodes, child, layout),
        )
    } else {
        layout
    }
}

/// The lines of a document rendered at `width`: those that the walk from the
/// root has finished; none for a document without nodes.
pub open spec fn rendered(nodes: Seq<Node>, width: u16) -> Seq<Seq<WordView>> {
    if nodes.len() == 0 {
        Seq::empty()
    } else {
        render_node(nodes, 0, Layout::start(width)).rendered_lines
    }
}

/// The width of two lines set one after the other is the sum of their
/// widths.
pub proof fn lemma_line_width_concat(a: Seq<WordView>, b: Seq<WordView>)
    ensures
        line_width(a + b) == line_width(a) + line_width(b),
    decreases b.len(),
{
    if b.len() == 0 {
        assert(a + b =~= a);
    } else {
        assert((a + b).drop_last() =~= a + b.drop_last());
        lemma_line_width_concat(a, b.drop_last());
    }
}

/// What a line shows after another: as wide as the first with its trailing
/// space, and what the second shows.
pub proof fn lemma_visible_width_concat(a: Seq<WordView>, b: Seq<WordView>)
    requires
        b.len() > 0,
    ensures
        crate::renderer::visible_width(a + b) == line_width(a) + crate::renderer::visible_width(b),
{
    lemma_line_width_concat(a, b);
}

impl Layout {
    /// The columns that padding and prefix take at the start of a line after
    /// the first of a batch.
    pub open spec fn indent(self) -> int {
        self.left_padding + if self.prefix is Some {
            2int
        } else {
            0int
        }
    }
}

/// A line after the first of a batch shows its words behind the columns of
/// padding and prefix.
pub proof fn lemma_continuation_width(layout: Layout, line: Seq<WordView>)
    requires
        line.len() > 0,
    ensures
        crate::renderer::visible_width(layout.continuation(line)) == layout.indent()
            + crate::renderer::visible_width(line),
{
    let lead = seq![whitespace_word(layout.left_padding as int)];
    assert(lead.drop_last() =~= Seq::<WordView>::empty());
    assert(line_width(lead) == layout.left_padding) by {
        reveal_with_fuel(line_width, 2);
    }
    match layout.prefix {
        Some(c) => {
            let both = lead.push(prefix_word(seq![c]));
            assert(both.drop_last() =~= lead);
            lemma_visible_width_concat(both, line);
        },
        None => {
            lemma_visible_width_concat(lead, line);
        },
    }
}

/// No word is lost where lines are cut: the lines, set one after the other,
/// are the words up to the sum of the lengths.
pub proof fn lemma_cut_keeps_every_word(words: Seq<WordView>, lengths: Seq<int>)
    requires
        forall|k: int| 0 <= k < lengths.len() ==> 0 <= #[trigger] lengths[k],
        total(lengths) <= words.len(),
    ensures
        cut(words, lengths).flatten() == words.take(total(lengths)),
    decreases lengths.len(),
{
    let lines = cut(words, lengths);
    lines.lemma_flatten_and_flatten_alt_are_equivalent();
    if lengths.len() == 0 {
        assert(lines.flatten_alt() =~= words.take(0));
    } else {
        let shorter = lengths.drop_last();
        crate::renderer::line_break::lemma_total_nonnegative(shorter);
        lemma_cut_keeps_every_word(words, shorter);
        cut(words, shorter).lemma_flatten_and_flatten_alt_are_equivalent();
        assert(lines.drop_last() =~= cut(words, shorter)) by {
            assert forall|k: int| 0 <= k < shorter.len() implies lines[k] == cut(
                words,
                shorter,
            )[k] by {
                assert(shorter.take(k) =~= lengths.take(k));
                assert(shorter.take(k + 1) =~= lengths.take(k + 1));
            }
        }
        assert(lengths.take(lengths.len() - 1) =~= shorter);
        assert(lengths.take(lengths.len() as int) =~= lengths);
        assert(lines.last() == words.subrange(total(shorter), total(lengths)));
        assert(lines.flatten_alt() =~= words.take(total(lengths)));
    }
}

/// Whether `line` keeps to `width`: it shows no more columns than that, or
/// it holds no more than one word that came from a node.
pub open spec fn within(line: Seq<WordView>, width: int) -> bool {
    crate::renderer::visible_width(line) <= width || real_words(line).len() <= 1
}

/// Where the lines that the line breaker made fit the room they were made
/// for, the lines that are laid out keep to the width. Given that the first
/// line of the batch shows no more than what is left of the current line, or
/// makes a line of one word with it, and that every later line is one word or
/// shows no more than the width less the columns of padding and prefix: the
/// current line and every line finished by the batch show at most `width`
/// columns or hold one word; and the lines finished before are as they were.
pub proof fn lemma_place_lines_fits(layout: Layout, words: Seq<WordView>, fit: Option<Seq<int>>)
    requires
        ({
            let lines = cut(words, line_lengths(fit, words.len() as int));
            &&& forall|k: int| 0 <= k < lines.len() ==> (#[trigger] lines[k]).len() > 0
            &&& crate::renderer::visible_width(lines[0]) <= layout.width - line_width(
                layout.current_line,
            ) || real_words(layout.current_line + lines[0]).len() <= 1
            &&& forall|k: int|
                1 <= k < lines.len() ==> (#[trigger] lines[k]).len() == 1
                    || crate::renderer::visible_width(lines[k]) + layout.indent() <= layout.width
        }),
    ensures
        ({
            let placed = layout.place_lines(words, fit);
            &&& within(placed.current_line, layout.width as int)
            &&& placed.rendered_lines.len() >= layout.rendered_lines.len()
            &&& forall|j: int|
                0 <= j < layout.rendered_lines.len() ==> #[trigger] placed.rendered_lines[j]
                    == layout.rendered_lines[j]
            &&& forall|j: int|
                layout.rendered_lines.len() <= j < placed.rendered_lines.len() ==> within(
                    #[trigger] placed.rendered_lines[j],
                    layout.width as int,
                )
        }),
{
    let lines = cut(words, line_lengths(fit, words.len() as int));
    let placed = layout.place_lines(words, fit);
    let first = layout.current_line + lines[0];
    assert(lines.len() >= 1);
    lemma_visible_width_concat(layout.current_line, lines[0]);
    assert(within(first, layout.width as int));
    if lines.len() > 1 {
        lemma_continuation_within(layout, lines.last());
        assert forall|j: int|
            layout.rendered_lines.len() <= j < placed.rendered_lines.len() implies within(
            #[trigger] placed.rendered_lines[j],
            layout.width as int,
        ) by {
            let k = j - layout.rendered_lines.len();
            if k == 0 {
                assert(placed.rendered_lines[j] == first);
            } else {
                assert(placed.rendered_lines[j] == layout.continuation(lines[k]));
                lemma_continuation_within(layout, lines[k]);
            }
        }
    }
}

/// A line after the first of a batch keeps to the width where its words are
/// one word, or show no more than the width less the columns of padding and
/// prefix.
pub proof fn lemma_continuation_within(layout: Layout, line: Seq<WordView>)
    requires
        line.len() > 0,
        line.len() == 1 || crate::renderer::visible_width(line) + layout.indent() <= layout.width,
    ensures
        within(layout.continuation(line), layout.width as int),
{
    lemma_continuation_width(layout, line);
    lemma_continuation_real_words(layout, line);
    line.lemma_filter_len(|w: WordView| !w.is_sentinel());
}

/// The words of `line` that came from a node: all but the sentinels.
pub open spec fn real_words(line: Seq<WordView>) -> Seq<WordView> {
    line.filter(|w: WordView| !w.is_sentinel())
}

/// The lines of `raw`, each made a line after the first of a batch.
pub open spec fn decorated(layout: Layout, raw: Seq<Seq<WordView>>) -> Seq<Seq<WordView>> {
    Seq::new(raw.len(), |k: int| layout.continuation(raw[k]))
}

impl Layout {
    /// Every word of the layout that came from a node, in order: those of
    /// the finished lines, then those of the current line.
    pub open spec fn words(self) -> Seq<WordView> {
        real_words(self.rendered_lines.flatten() + self.current_line)
    }
}

/// The real words of two lines set one after the other are those of the
/// first, then those of the second.
pub proof fn lemma_real_words_concat(a: Seq<WordView>, b: Seq<WordView>)
    ensures
        real_words(a + b) == real_words(a) + real_words(b),
{
    Seq::filter_distributes_over_add(a, b, |w: WordView| !w.is_sentinel());
}

/// Padding and prefix add no real word to a line.
pub proof fn lemma_continuation_real_words(layout: Layout, line: Seq<WordView>)
    ensures
        real_words(layout.continuation(line)) == real_words(line),
{
    let pred = |w: WordView| !w.is_sentinel();
    let none = Seq::<WordView>::empty();
    let space = whitespace_word(layout.left_padding as int);
    assert(none.filter(pred) =~= none) by {
        reveal(Seq::filter);
    }
    none.lemma_filter_push(space, pred);
    assert(none.push(space) =~= seq![space]);
    match layout.prefix {
        Some(c) => {
            seq![space].lemma_filter_push(prefix_word(seq![c]), pred);
            lemma_real_words_concat(seq![space].push(prefix_word(seq![c])), line);
            assert(none + real_words(line) =~= real_words(line));
        },
        None => {
            lemma_real_words_concat(seq![space], line);
            assert(none + real_words(line) =~= real_words(line));
        },
    }
}

/// Lines made lines after the first of a batch hold the real words they
/// held before.
pub proof fn lemma_decorated_real_words(layout: Layout, raw: Seq<Seq<WordView>>)
    ensures
        real_words(decorated(layout, raw).flatten()) == real_words(raw.flatten()),
    decreases raw.len(),
{
    if raw.len() == 0 {
        assert(decorated(layout, raw) =~= raw);
    } else {
        let shorter = raw.drop_last();
        lemma_decorated_real_words(layout, shorter);
        assert(decorated(layout, raw) =~= decorated(layout, shorter).push(
            layout.continuation(raw.last()),
        ));
        assert(raw =~= shorter.push(raw.last()));
        decorated(layout, shorter).lemma_flatten_push(layout.continuation(raw.last()));
        shorter.lemma_flatten_push(raw.last());
        lemma_continuation_real_words(layout, raw.last());
        lemma_real_words_concat(
            decorated(layout, shorter).flatten(),
            layout.continuation(raw.last()),
        );
        lemma_real_words_concat(shorter.flatten(), raw.last());
    }
}

/// To finish the current line loses and adds no word.
pub proof fn lemma_clear_line_keeps_words(layout: Layout)
    ensures
        layout.clear_line().words() == layout.words(),
        layout.clear_line().rendered_lines.flatten() + layout.clear_line().current_line
            == layout.rendered_lines.flatten() + layout.current_line,
{
    if layout.current_line.len() > 0 {
        layout.rendered_lines.lemma_flatten_push(layout.current_line);
        assert(layout.rendered_lines.flatten() + layout.current_line + Seq::<WordView>::empty()
            =~= layout.rendered_lines.flatten() + layout.current_line);
    }
}

/// To place a batch on lines keeps every word of it exactly once, in order:
/// the real words of the layout afterwards are those that it had, then those
/// of the batch.
pub proof fn lemma_place_lines_keeps_every_word(
    layout: Layout,
    words: Seq<WordView>,
    fit: Option<Seq<int>>,
)
    ensures
        layout.place_lines(words, fit).words() == layout.words() + real_words(words),
{
    let n = words.len() as int;
    let lengths = line_lengths(fit, n);
    lemma_line_lengths_break(fit, n);
    let lines = cut(words, lengths);
    lemma_cut_keeps_every_word(words, lengths);
    assert(words.take(n) =~= words);
    let placed = layout.place_lines(words, fit);
    let before = layout.rendered_lines.flatten();
    let first = layout.current_line + lines[0];
    if lines.len() == 1 {
        lines.lemma_flatten_singleton();
        assert(before + (layout.current_line + words) =~= (before + layout.current_line) + words);
        lemma_real_words_concat(before + layout.current_line, words);
    } else {
        let m = lines.len() as int;
        let raw = lines.subrange(1, m - 1);
        let flushed = if first.len() == 0 {
            layout.rendered_lines
        } else {
            layout.rendered_lines.push(first)
        };
        let middle = decorated(layout, raw);
        assert(placed.rendered_lines =~= flushed + middle);
        assert(flushed.flatten() =~= before + first) by {
            if first.len() > 0 {
                layout.rendered_lines.lemma_flatten_push(first);
            }
        }
        vstd::seq_lib::lemma_flatten_concat(flushed, middle);
        // the lines of the batch are the first, the middle ones and the last
        assert(lines =~= seq![lines[0]] + raw + seq![lines.last()]);
        vstd::seq_lib::lemma_flatten_concat(seq![lines[0]] + raw, seq![lines.last()]);
        vstd::seq_lib::lemma_flatten_concat(seq![lines[0]], raw);
        seq![lines[0]].lemma_flatten_singleton();
        seq![lines.last()].lemma_flatten_singleton();
        assert(words =~= lines[0] + raw.flatten() + lines.last());
        lemma_decorated_real_words(layout, raw);
        lemma_continuation_real_words(layout, lines.last());
        let kept = before + layout.current_line;
        assert(placed.rendered_lines.flatten() + placed.current_line =~= ((kept + lines[0])
            + middle.flatten()) + layout.continuation(lines.last()));
        lemma_real_words_concat((kept + lines[0]) + middle.flatten(), layout.continuation(lines.last()));
        lemma_real_words_concat(kept + lines[0], middle.flatten());
        lemma_real_words_concat(kept, lines[0]);
        lemma_real_words_concat(lines[0] + raw.flatten(), lines.last());
        lemma_real_words_concat(lines[0], raw.flatten());
        lemma_real_words_concat(kept, words);
        assert(((real_words(kept) + real_words(lines[0])) + real_words(raw.flatten()))
            + real_words(lines.last()) =~= real_words(kept) + ((real_words(lines[0]) + real_words(
            raw.flatten(),
        )) + real_words(lines.last())));
    }
}

/// To make the layout ready for a batch loses and adds no real word.
pub proof fn lemma_start_batch_keeps_words(layout: Layout, first_width: int)
    ensures
        layout.start_batch(first_width).words() == layout.words(),
{
    let opened = if layout.fits(first_width) {
        layout
    } else {
        layout.clear_line()
    };
    lemma_clear_line_keeps_words(layout);
    if opened.current_line.len() == 0 && layout.prefix is Some {
        let pred = |w: WordView| !w.is_sentinel();
        let word = prefix_word(first_prefix(layout.left_padding as int, layout.prefix->0));
        let none = Seq::<WordView>::empty();
        assert(none.filter(pred) =~= none) by {
            reveal(Seq::filter);
        }
        none.lemma_filter_push(word, pred);
        assert(none.push(word) =~= seq![word]);
        lemma_real_words_concat(opened.rendered_lines.flatten(), seq![word]);
        lemma_real_words_concat(opened.rendered_lines.flatten(), opened.current_line);
        assert(opened.current_line =~= none);
    }
}

/// A batch that is wrapped and appended is kept whole: every word of it
/// stands in the layout afterwards exactly once and in order, behind the
/// words that were there, wherever the lines were broken.
pub proof fn lemma_wrap_append_keeps_every_word(layout: Layout, words: Seq<WordView>)
    ensures
        layout.wrap_append(words).words() == layout.words() + real_words(words),
{
    if words.len() == 0 {
        assert(real_words(words) =~= Seq::<WordView>::empty()) by {
            reveal(Seq::filter);
        }
        assert(layout.words() + Seq::<WordView>::empty() =~= layout.words());
    } else {
        let fit = optimal_fit(
            widths_of(words),
            gaps_of(words),
            penalties_of(words),
            layout.batch_budget(words[0].width),
            layout.width as int,
        );
        lemma_start_batch_keeps_words(layout, words[0].width);
        lemma_place_lines_keeps_every_word(layout.start_batch(words[0].width), words, fit);
    }
}

/// A batch of one word is not broken: the word goes on the line that the
/// batch starts on.
pub proof fn lemma_wrap_append_one_word(layout: Layout, words: Seq<WordView>)
    requires
        words.len() == 1,
    ensures
        ({
            let started = layout.start_batch(words[0].width);
            layout.wrap_append(words) == Layout {
                current_line: started.current_line + words,
                ..started
            }
        }),
{
    let fit = optimal_fit(
        widths_of(words),
        gaps_of(words),
        penalties_of(words),
        layout.batch_budget(words[0].width),
        layout.width as int,
    );
    lemma_line_lengths_break(fit, 1);
    lemma_one_fragment_one_line(line_lengths(fit, 1));
    let lines = cut(words, seq![1int]);
    assert(seq![1int].take(0) =~= Seq::<int>::empty());
    assert(seq![1int].take(1) =~= seq![1int]);
    assert(seq![1int].drop_last() =~= Seq::<int>::empty());
    assert(total(seq![1int]) == 1) by {
        reveal_with_fuel(total, 2);
    }
    assert(lines[0] =~= words);
}

/// Where the lines that the line breaker made for a batch fit the room they
/// were made for, the batch is laid out within the width, but for lines of a
/// single word. Given that every line of the batch is one word, or shows no
/// more than its room (for the first, what is left of the line it starts on;
/// for a later one, the width less the columns of padding and prefix): the
/// current line and every line that the batch finishes show at most `width`
/// columns, or hold one word alone.
pub proof fn lemma_wrap_append_fits(layout: Layout, words: Seq<WordView>)
    requires
        words.len() > 0,
        ({
            let started = layout.start_batch(words[0].width);
            let fit = optimal_fit(
                widths_of(words),
                gaps_of(words),
                penalties_of(words),
                layout.batch_budget(words[0].width),
                layout.width as int,
            );
            let lines = cut(words, line_lengths(fit, words.len() as int));
            &&& lines[0].len() == 1 || crate::renderer::visible_width(lines[0]) <= layout.width
                - line_width(started.current_line)
            &&& forall|k: int|
                1 <= k < lines.len() ==> (#[trigger] lines[k]).len() == 1
                    || crate::renderer::visible_width(lines[k]) + layout.indent() <= layout.width
        }),
    ensures
        ({
            let started = layout.start_batch(words[0].width);
            let placed = layout.wrap_append(words);
            &&& within(placed.current_line, layout.width as int)
            &&& placed.rendered_lines.len() >= started.rendered_lines.len()
            &&& forall|j: int|
                started.rendered_lines.len() <= j < placed.rendered_lines.len() ==> within(
                    #[trigger] placed.rendered_lines[j],
                    layout.width as int,
                )
        }),
{
    let started = layout.start_batch(words[0].width);
    let fit = optimal_fit(
        widths_of(words),
        gaps_of(words),
        penalties_of(words),
        layout.batch_budget(words[0].width),
        layout.width as int,
    );
    let n = words.len() as int;
    let lengths = line_lengths(fit, n);
    lemma_line_lengths_break(fit, n);
    let lines = cut(words, lengths);
    assert forall|k: int| 0 <= k < lines.len() implies (#[trigger] lines[k]).len() > 0 by {
        lemma_total_take(lengths, k);
        lemma_total_monotonic(lengths, k);
        lemma_total_monotonic(lengths, k + 1);
        assert(lengths[k] >= 1);
    }
    if lines[0].len() == 1 {
        lemma_total_take(lengths, 0);
        lemma_total_monotonic(lengths, 1);
        assert(lengths.take(0) =~= Seq::<int>::empty());
        assert(total(lengths.take(0)) == 0);
        assert(lines[0] == words.subrange(0, total(lengths.take(1))));
        assert(total(lengths.take(1)) == 1);
        assert(lines[0] =~= seq![words[0]]);
        assert(seq![words[0]].drop_last() =~= Seq::<WordView>::empty());
        assert(crate::renderer::visible_width(seq![words[0]]) == words[0].width) by {
            reveal_with_fuel(line_width, 2);
        }
        lemma_visible_width_concat(started.current_line, lines[0]);
        if layout.fits(words[0].width) && layout.current_line.len() > 0 {
            assert(started == layout);
        } else {
            // the batch starts on a fresh line, which holds the prefix at most
            let pred = |w: WordView| !w.is_sentinel();
            let none = Seq::<WordView>::empty();
            assert(none.filter(pred) =~= none) by {
                reveal(Seq::filter);
            }
            if layout.prefix is Some {
                let word = prefix_word(
                    first_prefix(layout.left_padding as int, layout.prefix->0),
                );
                none.lemma_filter_push(word, pred);
                assert(none.push(word) =~= seq![word]);
                assert(started.current_line =~= seq![word]);
            } else {
                assert(started.current_line =~= none);
            }
            lemma_real_words_concat(started.current_line, lines[0]);
            lines[0].lemma_filter_len(pred);
        }
    }
    lemma_place_lines_fits(started, words, fit);
}

/// A batch of one word keeps to the width, whatever the line breaker says:
/// the line it ends on shows at most `width` columns, or holds that word
/// alone.
pub proof fn lemma_wrap_append_one_word_fits(layout: Layout, words: Seq<WordView>)
    requires
        words.len() == 1,
    ensures
        within(layout.wrap_append(words).current_line, layout.width as int),
        layout.wrap_append(words).rendered_lines == layout.start_batch(
            words[0].width,
        ).rendered_lines,
{
    let fit = optimal_fit(
        widths_of(words),
        gaps_of(words),
        penalties_of(words),
        layout.batch_budget(words[0].width),
        layout.width as int,
    );
    lemma_line_lengths_break(fit, 1);
    lemma_one_fragment_one_line(line_lengths(fit, 1));
    let lines = cut(words, seq![1int]);
    assert(lines.len() == 1);
    assert(seq![1int].take(0) =~= Seq::<int>::empty());
    assert(seq![1int].take(1) =~= seq![1int]);
    assert(seq![1int].drop_last() =~= Seq::<int>::empty());
    assert(total(seq![1int]) == 1) by {
        reveal_with_fuel(total, 2);
    }
    assert(lines[0] =~= words);
    lemma_wrap_append_fits(layout, words);
    lemma_wrap_append_one_word(layout, words);
}

/// Pushing a word onto a line pushes its value onto the line's value.
pub proof fn lemma_views_push(line: Seq<Word>, word: Word)
    ensures
        views(line.push(word)) == views(line).push(word@),
{
    assert(views(line.push(word)) =~= views(line).push(word@));
}

/// Pushing a line onto the lines pushes its value onto their value.
pub proof fn lemma_line_views_push(lines: Seq<Vec<Word>>, line: Vec<Word>)
    ensures
        line_views(lines.push(line)) == line_views(lines).push(views(line@)),
{
    assert(line_views(lines.push(line)) =~= line_views(lines).push(views(line@)));
}

impl Renderer {
    /// A layout for lines of `width` columns, with nothing laid out yet.
    pub fn new(width: u16) -> (r: Renderer)
        ensures
            r@ == Layout::start(width),
    {
        let r = Renderer {
            current_modifier: Style::new(),
            rendered_lines: Vec::new(),
            current_line: Vec::new(),
            contexts: Vec::new(),
            width,
            left_padding: 0,
            prefix: None,
        };
        assert(r@.rendered_lines =~= Seq::empty());
        assert(r@.current_line =~= Seq::empty());
        r
    }

    /// Whether the last word of the current line is a sentinel.
    pub fn is_last_whitespace(&self) -> (r: bool)
        ensures
            r == self@.is_last_whitespace(),
    {
        let n = self.current_line.len();
        n > 0 && self.current_line[n - 1].index == SENTINEL
    }

    /// Whether the last finished line is empty and nothing is on the current
    /// line.
    pub fn is_last_empty(&self) -> (r: bool)
        ensures
            r == self@.is_last_empty(),
    {
        if self.current_line.len() != 0 {
            false
        } else {
            let n = self.rendered_lines.len();
            n > 0 && self.rendered_lines[n - 1].len() == 0
        }
    }

    /// Adds one column of space to the end of the current line, unless the
    /// line ends in a sentinel word already.
    pub fn add_whitespace(&mut self)
        ensures
            final(self)@ == old(self)@.add_whitespace(),
    {
        if self.is_last_whitespace() {
            return ;
        }
        let word = Renderer::n_whitespace(1);
        proof {
            lemma_views_push(self.current_line@, word);
        }
        self.current_line.push(word);
    }

    /// A sentinel word of `n` columns of space.
    pub fn n_whitespace(n: u8) -> (r: Word)
        ensures
            r@ == whitespace_word(n as int),
    {
        Word {
            index: SENTINEL,
            content: String::new(),
            style: Style::new(),
            width: 0,
            whitespace_width: n as u16,
            penalty_width: 0,
        }
    }

    /// The columns left on the current line, or nothing where the line is
    /// wider than the layout.
    pub fn room(&self) -> (r: Option<u16>)
        ensures
            match r {
                Some(n) => n == self.width - line_width(self@.current_line),
                None => line_width(self@.current_line) > self.width,
            },
    {
        let mut left: u16 = self.width;
        let mut k: usize = 0;
        while k < self.current_line.len()
            invariant
                k <= self.current_line.len(),
                left == self.width - line_width(views(self.current_line@).take(k as int)),
            decreases self.current_line.len() - k,
        {
            proof {
                assert(views(self.current_line@).take(k + 1).drop_last() =~= views(
                    self.current_line@,
                ).take(k as int));
                lemma_line_width_monotonic(self.current_line@, k + 1);
            }
            let word = &self.current_line[k];
            if word.width > left as usize {
                return None;
            }
            let rest: u16 = left - word.width as u16;
            if word.whitespace_width > rest {
                return None;
            }
            left = rest - word.whitespace_width;
            k = k + 1;
        }
        assert(views(self.current_line@).take(k as int) =~= views(self.current_line@));
        Some(left)
    }

    /// The word that starts the first line of a batch inside a prefixed
    /// block.
    pub fn first_prefix_word(padding: u8, prefix: char) -> (r: Word)
        ensures
            r@ == prefix_word(first_prefix(padding as int, prefix)),
    {
        let mut chars: Vec<char> = Vec::new();
        let mut k: u8 = 0;
        while k < padding
            invariant
                k <= padding,
                chars@ == Seq::new(k as nat, |i: int| ' '),
            decreases padding - k,
        {
            chars.push(' ');
            k = k + 1;
            assert(chars@ =~= Seq::new(k as nat, |i: int| ' '));
        }
        chars.push(prefix);
        Word {
            index: SENTINEL,
            content: string_from_chars(&chars),
            style: Style::new(),
            width: 1,
            whitespace_width: 1,
            penalty_width: 0,
        }
    }

    /// The word that shows the prefix on a later line of a batch.
    pub fn prefix_word(prefix: char) -> (r: Word)
        ensures
            r@ == prefix_word(seq![prefix]),
    {
        let mut chars: Vec<char> = Vec::new();
        chars.push(prefix);
        assert(chars@ =~= seq![prefix]);
        Word {
            index: SENTINEL,
            content: string_from_chars(&chars),
            style: Style::new(),
            width: 1,
            whitespace_width: 1,
            penalty_width: 0,
        }
    }

    /// Makes the layout ready for a batch whose first word is `first_width`
    /// columns wide, and returns the columns that the first line of the batch
    /// has room for.
    pub fn start_batch(&mut self, first_width: usize) -> (budget: u16)
        ensures
            final(self)@ == old(self)@.start_batch(first_width as int),
            budget == old(self)@.batch_budget(first_width as int),
    {
        let mut room: u16 = self.width;
        let ghost before = self@;
        match self.room() {
            Some(left) => {
                if first_width <= left as usize {
                    room = left;
                } else {
                    self.clear_line();
                }
            },
            None => {
                self.clear_line();
            },
        }
        assert(self@ == if before.fits(first_width as int) {
            before
        } else {
            before.clear_line()
        });
        assert(room == if before.fits(first_width as int) {
            before.width - line_width(before.current_line)
        } else {
            before.width as int
        });
        if self.current_line.len() == 0 {
            assert(self@.current_line.len() == 0);
            room = room.saturating_sub(self.left_padding as u16);
            if let Some(prefix) = self.prefix {
                let word = Renderer::first_prefix_word(self.left_padding, prefix);
                proof {
                    lemma_views_push(self.current_line@, word);
                    assert(views(self.current_line@).push(word@) =~= seq![word@]);
                }
                self.current_line.push(word);
                room = room.saturating_sub(2);
            }
        }
        room
    }

    /// Appends copies of the words from `from` up to `to` to `line`.
    pub fn append_range(line: &mut Vec<Word>, words: &Vec<Word>, from: usize, to: usize)
        requires
            from <= to <= words.len(),
        ensures
            views(final(line)@) == views(old(line)@) + views(words@).subrange(
                from as int,
                to as int,
            ),
    {
        let mut k: usize = from;
        while k < to
            invariant
                from <= k <= to <= words.len(),
                views(line@) == views(old(line)@) + views(words@).subrange(from as int, k as int),
            decreases to - k,
        {
            let word = words[k].clone();
            proof {
                lemma_views_push(line@, word);
                assert(views(line@).push(word@) =~= views(old(line)@) + views(words@).subrange(
                    from as int,
                    k + 1,
                ));
            }
            line.push(word);
            k = k + 1;
        }
    }

    /// A line after the first of a batch: the padding, the prefix if one is
    /// set, then copies of the words from `from` up to `to`.
    pub fn continuation(&self, words: &Vec<Word>, from: usize, to: usize) -> (r: Vec<Word>)
        requires
            from <= to <= words.len(),
        ensures
            views(r@) == self@.continuation(views(words@).subrange(from as int, to as int)),
    {
        let mut line: Vec<Word> = Vec::new();
        let space = Renderer::n_whitespace(self.left_padding);
        proof {
            lemma_views_push(line@, space);
        }
        line.push(space);
        if let Some(prefix) = self.prefix {
            let word = Renderer::prefix_word(prefix);
            proof {
                lemma_views_push(line@, word);
            }
            line.push(word);
        }
        assert(views(line@) =~= match self.prefix {
            Some(c) => seq![whitespace_word(self.left_padding as int)].push(prefix_word(seq![c])),
            None => seq![whitespace_word(self.left_padding as int)],
        });
        Renderer::append_range(&mut line, words, from, to);
        line
    }

    /// Puts `words` on lines as `fit`, the answer of the line breaker, says:
    /// the first line continues the current line, every line but the last is
    /// finished, and the last becomes the current line. Where `fit` does not
    /// account for every word, all of them go on one line.
    pub fn place_lines(&mut self, words: Vec<Word>, fit: Option<Vec<usize>>)
        ensures
            final(self)@ == old(self)@.place_lines(views(words@), lengths_view(fit)),
    {
        let lengths = checked_lengths(fit, words.len());
        let count = lengths.len();
        let ghost lens = ints(lengths@);
        let ghost lines = cut(views(words@), lens);
        proof {
            lemma_total_take(lens, 0);
            lemma_total_monotonic(lens, 1);
            assert(lens.take(0) =~= Seq::<int>::empty());
            assert(views(words@).len() == words@.len());
        }
        Renderer::append_range(&mut self.current_line, &words, 0, lengths[0]);
        if count == 1 {
            return ;
        }
        self.clear_line();
        let ghost flushed = self@.rendered_lines;
        let mut from: usize = lengths[0];
        let mut k: usize = 1;
        while k < count - 1
            invariant
                1 <= k <= count - 1,
                count == lengths.len(),
                lens == ints(lengths@),
                lines == cut(views(words@), lens),
                is_partition(lens, words.len() as int),
                from == total(lens.take(k as int)),
                self@.current_line.len() == 0,
                self@.rendered_lines == flushed + Seq::new(
                    (k - 1) as nat,
                    |i: int| old(self)@.continuation(lines[i + 1]),
                ),
                self.width == old(self).width,
                self.left_padding == old(self).left_padding,
                self.prefix == old(self).prefix,
                self.current_modifier == old(self).current_modifier,
                self.contexts@ == old(self).contexts@,
            decreases count - k,
        {
            proof {
                lemma_total_take(lens, k as int);
                lemma_total_monotonic(lens, k + 1);
            }
            let to: usize = from + lengths[k];
            let line = self.continuation(&words, from, to);
            proof {
                lemma_line_views_push(self.rendered_lines@, line);
                assert(views(line@) == old(self)@.continuation(lines[k as int]));
                assert(flushed + Seq::new(
                    k as nat,
                    |i: int| old(self)@.continuation(lines[i + 1]),
                ) =~= (flushed + Seq::new(
                    (k - 1) as nat,
                    |i: int| old(self)@.continuation(lines[i + 1]),
                )).push(views(line@)));
            }
            self.rendered_lines.push(line);
            from = to;
            k = k + 1;
        }
        proof {
            lemma_total_take(lens, k as int);
            lemma_total_monotonic(lens, k + 1);
            assert(lens.take(count as int) =~= lens);
        }
        let to: usize = from + lengths[k];
        let line = self.continuation(&words, from, to);
        self.current_line = line;
    }

    /// Wraps `words` and appends them: they fill up the current line and go
    /// on from there in lines of the layout's width, broken where the
    /// optimal-fit line breaker puts the breaks.
    pub fn wrap_append(&mut self, words: Vec<Word>)
        ensures
            final(self)@ == old(self)@.wrap_append(views(words@)),
            final(self)@.words() == old(self)@.words() + real_words(views(words@)),
    {
        proof {
            lemma_wrap_append_keeps_every_word(self@, views(words@));
        }
        if words.len() == 0 {
            return ;
        }
        let budget = self.start_batch(words[0].width);
        let fit = optimal_fit_lines(&words, budget, self.width);
        self.place_lines(words, fit);
    }

    /// The words of the text run `chars` of node `index`, in `style`.
    pub fn text_words(chars: &Vec<char>, index: usize, style: Style) -> (r: Vec<Word>)
        ensures
            views(r@) == text_words(chars@, index as int, style),
    {
        let pieces = split_whitespace(chars);
        let trailing = chars.len() > 0 && char_is_whitespace(chars[chars.len() - 1]);
        let mut words: Vec<Word> = Vec::new();
        let mut k: usize = 0;
        while k < pieces.len()
            invariant
                k <= pieces.len(),
                pieces@.len() == split_words(chars@).len(),
                forall|i: int|
                    0 <= i < pieces@.len() ==> (#[trigger] pieces@[i])@ == split_words(chars@)[i],
                trailing == (chars@.len() > 0 && is_whitespace(chars@.last())),
                views(words@) == text_words(chars@, index as int, style).take(k as int),
            decreases pieces.len() - k,
        {
            let piece = &pieces[k];
            let last = k + 1 == pieces.len();
            let word = Word {
                index,
                content: string_from_chars(piece),
                style,
                width: piece.len(),
                whitespace_width: if !last || trailing {
                    1
                } else {
                    0
                },
                penalty_width: 0,
            };
            proof {
                lemma_views_push(words@, word);
                assert(views(words@).push(word@) =~= text_words(chars@, index as int, style).take(
                    k + 1,
                ));
            }
            words.push(word);
            k = k + 1;
        }
        assert(text_words(chars@, index as int, style).take(k as int) =~= text_words(
            chars@,
            index as int,
            style,
        ));
        words
    }

    /// Lays out the text run `contents` of node `index`.
    pub fn text(&mut self, contents: &String, index: usize)
        ensures
            final(self)@ == old(self)@.text(contents@, index as int),
    {
        let chars = chars_of(contents.as_str());
        if chars.len() > 0 {
            let c = chars[0];
            if (c == ',' || c == '.' || c == '"' || c == '\'') && self.is_last_whitespace() {
                self.current_line.pop();
                assert(views(self.current_line@) =~= views(old(self).current_line@).drop_last());
            }
        }
        let words = Renderer::text_words(&chars, index, self.current_style());
        self.wrap_append(words);
    }

    /// Enters node `index`, which is `data`: opens its region, switches its
    /// modifiers on, breaks the line or sets the block off as its kind asks,
    /// and lays out its text if it is a text run.
    pub fn pre_children(&mut self, data: &Data, index: usize)
        ensures
            final(self)@ == old(self)@.pre_children(*data, index as int),
    {
        let mut is_block = false;
        match data {
            Data::Section => {
                is_block = true;
            },
            Data::Header { .. } => {
                self.push_context(Context::Header);
                self.add_modifier(Modifier::Bold);
                is_block = true;
            },
            Data::Text { contents } => {
                self.text(contents, index);
            },
            Data::Division => {
                is_block = true;
            },
            Data::Paragraph => {
                is_block = true;
            },
            Data::Span => {},
            Data::Reflink => {
                self.push_context(Context::Reflink);
                self.add_modifier(Modifier::Italic);
            },
            Data::Hatnote => {
                is_block = true;
            },
            Data::RedirectMessage => {
                is_block = true;
            },
            Data::Disambiguation => {
                is_block = true;
                self.add_modifier(Modifier::Italic);
                self.left_padding = DISAMBIGUATION_PADDING;
                self.prefix = Some(DISAMBIGUATION_PREFIX);
            },
            Data::OrderedList => {
                is_block = true;
            },
            Data::UnorderedList => {
                is_block = true;
            },
            Data::ListItem => {
                is_block = true;
            },
            Data::DescriptionList => {
                is_block = true;
            },
            Data::DescriptionListTerm => {
                is_block = true;
            },
            Data::DescriptionListDescription => {
                is_block = true;
            },
            Data::Bold => {
                self.add_modifier(Modifier::Bold);
            },
            Data::Italic => {
                self.add_modifier(Modifier::Italic);
            },
            Data::WikiLink { .. } => {
                self.push_context(Context::WikiLink);
                self.add_modifier(Modifier::Underlined);
            },
            Data::RedLink => {
                self.push_context(Context::RedLink);
                self.add_modifier(Modifier::Italic);
                self.add_modifier(Modifier::Underlined);
            },
            Data::MediaLink => {
                self.push_context(Context::MediaLink);
                self.add_modifier(Modifier::Italic);
                self.add_modifier(Modifier::Underlined);
            },
            Data::ExternalLink => {
                self.push_context(Context::ExternalLink);
                self.add_modifier(Modifier::Italic);
                self.add_modifier(Modifier::Underlined);
            },
            Data::Unknown => {},
        }
        if is_block {
            self.ensure_empty_line();
        }
    }

    /// Leaves a node, which is `data`: closes its region, switches its
    /// modifiers off, and puts the space after an inline element or the empty
    /// line after a block.
    pub fn post_children(&mut self, data: &Data)
        ensures
            final(self)@ == old(self)@.post_children(*data),
    {
        let mut is_block = false;
        match data {
            Data::Section => {
                is_block = true;
            },
            Data::Header { .. } => {
                self.remove_modifier(Modifier::Bold);
                self.pop_context();
                is_block = true;
            },
            Data::Text { .. } => {},
            Data::Division => {
                is_block = true;
            },
            Data::Paragraph => {
                is_block = true;
            },
            Data::Span => {
                self.add_whitespace();
            },
            Data::Reflink => {
                self.add_whitespace();
                self.pop_context();
                self.remove_modifier(Modifier::Italic);
            },
            Data::Hatnote => {
                is_block = true;
            },
            Data::RedirectMessage => {
                is_block = true;
            },
            Data::Disambiguation => {
                is_block = true;
                self.remove_modifier(Modifier::Italic);
                self.left_padding = self.left_padding.saturating_sub(DISAMBIGUATION_PADDING);
                self.prefix = None;
            },
            Data::OrderedList => {
                is_block = true;
            },
            Data::UnorderedList => {
                is_block = true;
            },
            Data::ListItem => {
                is_block = true;
            },
            Data::DescriptionList => {
                is_block = true;
            },
            Data::DescriptionListTerm => {
                is_block = true;
            },
            Data::DescriptionListDescription => {
                is_block = true;
            },
            Data::Bold => {
                self.remove_modifier(Modifier::Bold);
            },
            Data::Italic => {
                self.remove_modifier(Modifier::Italic);
            },
            Data::WikiLink { .. } => {
                self.pop_context();
                self.remove_modifier(Modifier::Underlined);
                self.add_whitespace();
            },
            Data::RedLink => {
                self.pop_context();
                self.remove_modifier(Modifier::Italic);
                self.remove_modifier(Modifier::Underlined);
                self.add_whitespace();
            },
            Data::MediaLink => {
                self.pop_context();
                self.remove_modifier(Modifier::Italic);
                self.remove_modifier(Modifier::Underlined);
                self.add_whitespace();
            },
            Data::ExternalLink => {
                self.pop_context();
                self.remove_modifier(Modifier::Italic);
                self.remove_modifier(Modifier::Underlined);
                self.add_whitespace();
            },
            Data::Unknown => {},
        }
        if is_block {
            self.ensure_empty_line();
        }
    }

    /// Walks the subtree of node `index`: enters the node, walks its children
    /// in order, and leaves it.
    pub fn render_node(&mut self, document: &Document, index: usize)
        requires
            document.wf(),
            index < document@.len(),
        ensures
            final(self)@ == render_node(document@, index as int, old(self)@),
        decreases document@[index as int].last_descendant - index,
    {
        self.pre_children(document.data(index), index);
        let count = document.len();
        let end = document.last_descendant(index);
        let ghost entered = self@;
        let mut child: usize = index + 1;
        while child <= end
            invariant
                document.wf(),
                index < child <= end + 1,
                end == document@[index as int].last_descendant,
                end < count == document@.len(),
                render_children(document@, index as int, child as int, self@) == render_children(
                    document@,
                    index as int,
                    index + 1,
                    entered,
                ),
            decreases end + 1 - child,
        {
            self.render_node(document, child);
            child = document.last_descendant(child) + 1;
        }
        self.post_children(document.data(index));
    }

    /// Renders `document` in lines of `width` columns.
    pub fn render_document(document: &Document, width: u16) -> (r: RenderedDocument)
        requires
            document.wf(),
        ensures
            r@ == rendered(document@, width),
    {
        if document.is_empty() {
            let lines: Vec<Vec<Word>> = Vec::new();
            assert(line_views(lines@) =~= Seq::empty());
            return RenderedDocument { lines };
        }
        let mut renderer = Renderer::new(width);
        renderer.render_node(document, 0);
        RenderedDocument { lines: renderer.rendered_lines }
    }

    /// Switches `modifier` on for the text that follows.
    pub fn add_modifier(&mut self, modifier: Modifier)
        ensures
            final(self)@ == old(self)@.add_modifier(modifier),
    {
        self.current_modifier = self.current_modifier.add_modifier(modifier);
    }

    /// Switches `modifier` off for the text that follows.
    pub fn remove_modifier(&mut self, modifier: Modifier)
        ensures
            final(self)@ == old(self)@.remove_modifier(modifier),
    {
        self.current_modifier = self.current_modifier.remove_modifier(modifier);
    }

    /// Moves the current line to the finished lines, unless it is empty.
    pub fn clear_line(&mut self)
        ensures
            final(self)@ == old(self)@.clear_line(),
    {
        if self.current_line.len() == 0 {
            return ;
        }
        let mut line: Vec<Word> = Vec::new();
        line.append(&mut self.current_line);
        proof {
            lemma_line_views_push(self.rendered_lines@, line);
            assert(views(self.current_line@) =~= Seq::empty());
        }
        self.rendered_lines.push(line);
    }

    /// Finishes the current line and adds an empty line after it.
    pub fn add_empty_line(&mut self)
        ensures
            final(self)@ == old(self)@.add_empty_line(),
    {
        self.clear_line();
        let line: Vec<Word> = Vec::new();
        proof {
            lemma_line_views_push(self.rendered_lines@, line);
            assert(views(line@) =~= Seq::empty());
        }
        self.rendered_lines.push(line);
    }

    /// Adds an empty line unless the layout ends in one.
    pub fn ensure_empty_line(&mut self)
        ensures
            final(self)@ == old(self)@.ensure_empty_line(),
    {
        if !self.is_last_empty() {
            self.add_empty_line();
        }
    }

    /// Enters a region.
    pub fn push_context(&mut self, context: Context)
        ensures
            final(self)@ == old(self)@.push_context(context),
    {
        self.contexts.push(context);
    }

    /// The innermost region, `Normal` outside any.
    pub fn context(&self) -> (r: Context)
        ensures
            r == self@.context(),
    {
        let n = self.contexts.len();
        if n == 0 {
            Context::Normal
        } else {
            self.contexts[n - 1]
        }
    }

    /// Leaves the innermost region.
    pub fn pop_context(&mut self)
        ensures
            final(self)@ == old(self)@.pop_context(),
    {
        self.contexts.pop();
    }

    /// The style of text emitted now.
    pub fn current_style(&self) -> (r: Style)
        ensures
            r == self@.current_style(),
    {
        let style = match self.context() {
            Context::Normal => Style::new(),
            Context::Header => Style::new().fg(Color::Red),
            Context::WikiLink => Style::new(),
            Context::MediaLink => Style::new(),
            Context::ExternalLink => Style::new(),
            Context::RedLink => Style::new().fg(Color::Red),
            Context::Reflink => Style::new().fg(Color::Gray),
        };
        style.patch(self.current_modifier)
    }
}

/// Renders `document` in lines of `width` columns: the tree is walked from
/// its root, and the lines that the walk has finished are the render.
pub fn render_document(document: &Document, width: u16) -> (r: RenderedDocument)
    requires
        document.wf(),
    ensures
        r@ == rendered(document@, width),
{
    Renderer::render_document(document, width)
}

} // verus!
