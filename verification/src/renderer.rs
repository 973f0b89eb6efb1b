//! Rendered output: words, lines and whole documents.

pub mod default_renderer;
pub mod line_break;
pub mod text;

use crate::document::Document;
use crate::style::Style;
use vstd::prelude::*;

verus! {

/// Origin index of a word that stands for no node: spacing, indentation or a
/// line prefix.
pub const SENTINEL: usize = usize::MAX;

/// A styled fragment of one line.
#[derive(Debug, PartialEq, Eq)]
pub struct Word {
    /// Index of the node the word was made from, or `SENTINEL`.
    pub index: usize,
    pub content: String,
    pub style: Style,
    /// Columns that the content takes.
    pub width: usize,
    /// Columns of space that follow the word where another word follows it.
    pub whitespace_width: u16,
    /// Columns added where the word ends a line.
    pub penalty_width: u16,
}

/// A word as a mathematical value.
pub struct WordView {
    pub index: int,
    pub content: Seq<char>,
    pub style: Style,
    pub width: int,
    pub whitespace_width: int,
    pub penalty_width: int,
}

impl View for Word {
    type V = WordView;

    open spec fn view(&self) -> WordView {
        WordView {
            index: self.index as int,
            content: self.content@,
            style: self.style,
            width: self.width as int,
            whitespace_width: self.whitespace_width as int,
            penalty_width: self.penalty_width as int,
        }
    }
}

impl Clone for Word {
    fn clone(&self) -> (r: Word)
        ensures
            r@ == self@,
    {
        Word {
            index: self.index,
            content: self.content.clone(),
            style: self.style,
            width: self.width,
            whitespace_width: self.whitespace_width,
            penalty_width: self.penalty_width,
        }
    }
}

impl WordView {
    /// Whether the word stands for no node.
    pub open spec fn is_sentinel(self) -> bool {
        self.index == SENTINEL
    }

    /// The columns the word takes where another word follows it.
    pub open spec fn advance(self) -> int {
        self.width + self.whitespace_width
    }

    /// What the word shows: its content, then its trailing space.
    pub open spec fn text(self) -> Seq<char> {
        self.content + Seq::new(self.whitespace_width as nat, |i: int| ' ')
    }
}

/// The node that `word` came from: its index where the document has such a
/// node, nothing for a sentinel.
pub open spec fn origin(word: WordView, nodes: int) -> Option<int> {
    if 0 <= word.index < nodes {
        Some(word.index)
    } else {
        None
    }
}

impl Word {
    /// Index of the node of `document` that the word came from, if any.
    pub fn node(&self, document: &Document) -> (r: Option<usize>)
        ensures
            match r {
                Some(i) => origin(self@, document@.len() as int) == Some(i as int),
                None => origin(self@, document@.len() as int) is None,
            },
    {
        if self.index < document.len() {
            Some(self.index)
        } else {
            None
        }
    }

    /// What the word shows: its content followed by its trailing space.
    pub fn text(&self) -> (r: String)
        ensures
            r@ == self@.text(),
    {
        let mut out = self.content.clone();
        let mut i: u16 = 0;
        while i < self.whitespace_width
            invariant
                i <= self.whitespace_width,
                out@ == self.content@ + Seq::new(i as nat, |k: int| ' '),
            decreases self.whitespace_width - i,
        {
            proof {
                reveal_strlit(" ");
            }
            out.append(" ");
            i = i + 1;
            assert(out@ =~= self.content@ + Seq::new(i as nat, |k: int| ' '));
        }
        out
    }
}

/// The words of a line as mathematical values.
pub open spec fn views(line: Seq<Word>) -> Seq<WordView> {
    line.map_values(|w: Word| w@)
}

/// The lines of a render as mathematical values.
pub open spec fn line_views(lines: Seq<Vec<Word>>) -> Seq<Seq<WordView>> {
    lines.map_values(|l: Vec<Word>| views(l@))
}

/// Columns that `line` takes when every word is followed by its space.
pub open spec fn line_width(line: Seq<WordView>) -> int
    decreases line.len(),
{
    if line.len() == 0 {
        0
    } else {
        line_width(line.drop_last()) + line.last().advance()
    }
}

/// Columns that `line` shows: every word, and the space between words, but
/// not the space after the last word.
pub open spec fn visible_width(line: Seq<WordView>) -> int {
    if line.len() == 0 {
        0
    } else {
        line_width(line) - line.last().whitespace_width
    }
}

/// Whether `word` came from a node with an index from `lo` to `hi`, both
/// included, of a document of `nodes` nodes.
pub open spec fn touches(word: WordView, nodes: int, lo: int, hi: int) -> bool {
    match origin(word, nodes) {
        Some(i) => lo <= i <= hi,
        None => false,
    }
}

/// Whether `line` holds a word that came from a node in the range.
pub open spec fn line_touches(line: Seq<WordView>, nodes: int, lo: int, hi: int) -> bool {
    exists|j: int| 0 <= j < line.len() && touches(#[trigger] line[j], nodes, lo, hi)
}

/// The first line from `from` up to `to` that holds a word from a node in the
/// range.
pub open spec fn first_line(
    lines: Seq<Seq<WordView>>,
    nodes: int,
    lo: int,
    hi: int,
    from: int,
    to: int,
) -> Option<int>
    decreases to - from,
{
    if from >= to || from < 0 || to > lines.len() {
        None
    } else if line_touches(lines[from], nodes, lo, hi) {
        Some(from)
    } else {
        first_line(lines, nodes, lo, hi, from + 1, to)
    }
}

/// What `first_line` finds: a line in the window that touches the range,
/// with no such line before it in the window; or nothing where no line of
/// the window touches the range.
pub proof fn lemma_first_line(
    lines: Seq<Seq<WordView>>,
    nodes: int,
    lo: int,
    hi: int,
    from: int,
    to: int,
)
    requires
        0 <= from,
        to <= lines.len(),
    ensures
        match first_line(lines, nodes, lo, hi, from, to) {
            Some(k) => from <= k < to && line_touches(lines[k], nodes, lo, hi) && forall|m: int|
                from <= m < k ==> !line_touches(#[trigger] lines[m], nodes, lo, hi),
            None => forall|m: int|
                from <= m < to ==> !line_touches(#[trigger] lines[m], nodes, lo, hi),
        },
    decreases to - from,
{
    if from < to && !line_touches(lines[from], nodes, lo, hi) {
        lemma_first_line(lines, nodes, lo, hi, from + 1, to);
    }
}

/// A document rendered for one width: its lines from top to bottom.
#[derive(Debug, PartialEq, Eq)]
pub struct RenderedDocument {
    pub lines: Vec<Vec<Word>>,
}

impl View for RenderedDocument {
    type V = Seq<Seq<WordView>>;

    open spec fn view(&self) -> Seq<Seq<WordView>> {
        line_views(self.lines@)
    }
}

impl RenderedDocument {
    /// Whether the line at `index` holds a word that came from a node with an
    /// index from `lo` to `hi`.
    pub fn line_touches(&self, document: &Document, index: usize, lo: usize, hi: usize) -> (r:
        bool)
        requires
            index < self.lines.len(),
        ensures
            r == line_touches(self@[index as int], document@.len() as int, lo as int, hi as int),
    {
        let line = &self.lines[index];
        let ghost count = document@.len() as int;
        assert(self@[index as int] == views(line@));
        let mut j: usize = 0;
        while j < line.len()
            invariant
                j <= line.len(),
                self@[index as int] == views(line@),
                count == document@.len(),
                forall|k: int|
                    0 <= k < j ==> !touches(
                        #[trigger] views(line@)[k],
                        count,
                        lo as int,
                        hi as int,
                    ),
            decreases line.len() - j,
        {
            match line[j].node(document) {
                Some(i) => {
                    if lo <= i && i <= hi {
                        assert(touches(views(line@)[j as int], count, lo as int, hi as int));
                        return true;
                    }
                },
                None => {},
            }
            j = j + 1;
        }
        false
    }

    /// Index of the first line from `from` up to `to` that holds a word from
    /// a node with an index from `lo` to `hi`.
    pub fn find_line(&self, document: &Document, lo: usize, hi: usize, from: usize, to: usize) -> (r:
        Option<usize>)
        ensures
            match r {
                Some(k) => first_line(
                    self@,
                    document@.len() as int,
                    lo as int,
                    hi as int,
                    from as int,
                    to as int,
                ) == Some(k as int),
                None => first_line(
                    self@,
                    document@.len() as int,
                    lo as int,
                    hi as int,
                    from as int,
                    to as int,
                ) is None,
            },
    {
        if to > self.lines.len() {
            return None;
        }
        let mut k: usize = from;
        while k < to
            invariant
                from <= k,
                to <= self.lines.len(),
                first_line(
                    self@,
                    document@.len() as int,
                    lo as int,
                    hi as int,
                    from as int,
                    to as int,
                ) == first_line(
                    self@,
                    document@.len() as int,
                    lo as int,
                    hi as int,
                    k as int,
                    to as int,
                ),
            decreases to - k,
        {
            if self.line_touches(document, k, lo, hi) {
                return Some(k);
            }
            k = k + 1;
        }
        None
    }
}

} // verus!
