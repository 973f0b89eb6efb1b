//! The page component: a viewport over a rendered page, a selection of one
//! link, an outline cursor and a cache of renders by width.

use crate::action::{
    Action, ActionResult, ActionResultView, ActionView, PageAction, PageActionView,
};
use crate::document::{
    first_link, last_header, last_link, lemma_first_link, lemma_last_link, well_formed, Data,
};
use crate::event::{KeyCode, KeyEvent};
use crate::page::{Page, Section};
use crate::renderer::default_renderer::{render_document, rendered};
use crate::document::{Document, Node};
use crate::renderer::{first_line, RenderedDocument, Word, WordView};
use crate::style::{Color, Modifier, Style};
use std::collections::HashMap;
use vstd::prelude::*;

verus! {

broadcast use vstd::std_specs::hash::group_hash_axioms;

/// The renderers there are to switch between.
#[derive(Clone, Copy, Debug, PartialEq, Eq, Structural)]
pub enum Renderer {
    Default,
}

impl Default for Renderer {
    fn default() -> (r: Renderer)
        ensures
            r == Renderer::Default,
    {
        Renderer::Default
    }
}

impl Renderer {
    /// The renderer that a switch leads to from this one.
    #[verifier::allow_in_spec]
    pub fn next(&self) -> Renderer
        returns
            Renderer::Default,
    {
        match self {
            Renderer::Default => Renderer::Default,
        }
    }
}

/// The window on the rendered page: the line at its top, and its size.
#[derive(Clone, Copy, Debug, PartialEq, Eq, Structural)]
pub struct Viewport {
    pub y: u16,
    pub width: u16,
    pub height: u16,
}

impl Viewport {
    /// The line at the top of the window.
    #[verifier::allow_in_spec]
    pub fn top(self) -> u16
        returns
            self.y,
    {
        self.y
    }

    /// The line after the last of the window, as far as it can be counted.
    #[verifier::allow_in_spec]
    pub fn bottom(self) -> u16
        returns
            (if self.y + self.height > u16::MAX {
                u16::MAX
            } else {
                (self.y + self.height) as u16
            }),
    {
        self.y.saturating_add(self.height)
    }
}

/// The cursor of the outline panel.
#[derive(Clone, Copy, Debug, PartialEq, Eq, Structural)]
pub struct PageContentsState {
    pub selected: Option<usize>,
    pub max_idx_section: usize,
}

/// A page on show.
pub struct PageComponent {
    page: Page,
    renderer: Renderer,
    render_cache: HashMap<u16, RenderedDocument>,
    viewport: Viewport,
    selected: (usize, usize),
    is_contents: bool,
    contents_state: PageContentsState,
}

/// A run of text in one style.
#[derive(Clone, Debug, PartialEq, Eq)]
pub struct Span {
    pub content: String,
    pub style: Style,
}

/// A run of text as a mathematical value.
pub struct SpanView {
    pub content: Seq<char>,
    pub style: Style,
}

impl View for Span {
    type V = SpanView;

    open spec fn view(&self) -> SpanView {
        SpanView { content: self.content@, style: self.style }
    }
}

/// What the page area shows: its lines, and the length and position for a
/// scrollbar.
#[derive(Clone, Debug, PartialEq, Eq)]
pub struct Frame {
    pub lines: Vec<Vec<Span>>,
    pub scroll_length: usize,
    pub scroll_position: usize,
}

/// The spans of a line as mathematical values.
pub open spec fn span_views(line: Seq<Span>) -> Seq<SpanView> {
    line.map_values(|s: Span| s@)
}

/// The lines of a frame as mathematical values.
pub open spec fn frame_views(lines: Seq<Vec<Span>>) -> Seq<Seq<SpanView>> {
    lines.map_values(|l: Vec<Span>| span_views(l@))
}

/// What the outline panel shows: whether it has the focus, the text of each
/// entry where the page has an outline, and the entry that the cursor is on.
#[derive(Clone, Debug, PartialEq, Eq)]
pub struct ContentsPanel {
    pub focused: bool,
    pub items: Option<Vec<String>>,
    pub selected: Option<usize>,
}

/// The text of an outline entry: the number of the section, a space, and
/// its text.
pub open spec fn entry_text(section: Section) -> Seq<char> {
    section.number@ + seq![' '] + section.text@
}

/// The style of a word of the selected link: underlined on top of its own.
pub open spec fn highlighted(style: Style) -> Style {
    style.patch(Style::new().add_modifier(Modifier::Underlined))
}

/// What a word shows: its text in its style, underlined where it came from a
/// node in the selected range.
pub open spec fn span_of(word: WordView, nodes: int, selected: (usize, usize)) -> SpanView {
    SpanView {
        content: word.text(),
        style: if crate::renderer::touches(word, nodes, selected.0 as int, selected.1 as int) {
            highlighted(word.style)
        } else {
            word.style
        },
    }
}

/// What a line shows.
pub open spec fn shown_line(line: Seq<WordView>, nodes: int, selected: (usize, usize)) -> Seq<
    SpanView,
> {
    Seq::new(line.len(), |j: int| span_of(line[j], nodes, selected))
}

/// The line that shows the title of the page.
pub open spec fn title_line(title: Seq<char>) -> Seq<SpanView> {
    seq![
        SpanView {
            content: title,
            style: Style::new().fg(Color::Red).add_modifier(Modifier::Bold),
        },
    ]
}

/// The lines that a frame shows of `lines`: from the top of the viewport on,
/// as many as its bottom line says, with the title in front at the top of the
/// page, where the last line makes room for it.
pub open spec fn frame_lines(
    lines: Seq<Seq<WordView>>,
    nodes: int,
    viewport: Viewport,
    selected: (usize, usize),
    title: Seq<char>,
) -> Seq<Seq<SpanView>> {
    let from = if viewport.y > lines.len() {
        lines.len() as int
    } else {
        viewport.y as int
    };
    let to = if from + viewport.bottom() > lines.len() {
        lines.len() as int
    } else {
        from + viewport.bottom()
    };
    let body = Seq::new((to - from) as nat, |k: int| shown_line(lines[from + k], nodes, selected));
    if viewport.y == 0 {
        (seq![title_line(title)] + body).drop_last()
    } else {
        body
    }
}

/// The state of a page component as a mathematical value.
pub struct PageModel {
    pub page: Page,
    pub renderer: Renderer,
    /// The renders that are kept, by width.
    pub cache: Map<u16, Seq<Seq<WordView>>>,
    pub viewport: Viewport,
    /// The containment range of the selected link.
    pub selected: (usize, usize),
    /// Whether the outline panel has the focus.
    pub is_contents: bool,
    pub contents_selected: Option<usize>,
    pub section_count: usize,
}

/// A number of lines as far as a viewport can count them.
pub open spec fn line_count(lines: Seq<Seq<WordView>>) -> u16 {
    if lines.len() > u16::MAX {
        u16::MAX
    } else {
        lines.len() as u16
    }
}

impl PageModel {
    /// The invariant of a page component: its document is a forest, every
    /// kept render is the render of the document at its width, and the
    /// outline cursor stays on a section.
    pub open spec fn wf(self) -> bool {
        &&& well_formed(self.page.content@)
        &&& forall|w: u16| #[trigger]
            self.cache.contains_key(w) ==> self.cache[w] == rendered(self.page.content@, w)
        &&& self.section_count == self.page.section_count()
        &&& self.contents_selected matches Some(i) ==> i == 0 || i < self.section_count
    }

    /// The state that a page starts in.
    pub open spec fn start(page: Page) -> PageModel {
        PageModel {
            page,
            renderer: Renderer::Default,
            cache: Map::empty(),
            viewport: Viewport { y: 0, width: 0, height: 0 },
            selected: (0, 0),
            is_contents: false,
            contents_selected: Some(0),
            section_count: page.section_count() as usize,
        }
    }

    /// All renders dropped and the selection back at its default.
    pub open spec fn flush_cache(self) -> PageModel {
        PageModel { cache: Map::empty(), selected: (0, 0), ..self }
    }

    /// The renderer changed: every render dropped, and selection and
    /// viewport back at their start.
    pub open spec fn switch_renderer(self, renderer: Renderer) -> PageModel {
        PageModel { renderer, ..self }.flush_cache().scroll_to(0)
    }

    /// The viewport resized, all renders dropped and the selection reset.
    pub open spec fn resize(self, width: u16, height: u16) -> PageModel {
        PageModel { viewport: Viewport { width, height, ..self.viewport }, ..self }.flush_cache()
    }

    /// The section after the one the outline cursor is on, the first after
    /// the last.
    pub open spec fn next_section(self) -> usize {
        match self.contents_selected {
            Some(i) => if self.section_count == 0 || i >= self.section_count - 1 {
                0
            } else {
                (i + 1) as usize
            },
            None => 0,
        }
    }

    /// The section before the one the outline cursor is on, the last before
    /// the first.
    pub open spec fn prev_section(self) -> usize {
        match self.contents_selected {
            Some(i) => if i == 0 {
                if self.section_count == 0 {
                    0
                } else {
                    (self.section_count - 1) as usize
                }
            } else {
                (i - 1) as usize
            },
            None => 0,
        }
    }

    /// The top line after scrolling down by `amount`: where the kept render
    /// for the viewport's width ends within reach, the line that puts its end
    /// at the bottom of the viewport.
    pub open spec fn scrolled_down(self, amount: u16) -> u16 {
        let width = self.viewport.width;
        if self.cache.contains_key(width) && self.viewport.bottom() + amount >= line_count(
            self.cache[width],
        ) {
            let lines = line_count(self.cache[width]);
            if lines >= self.viewport.height {
                (lines - self.viewport.height) as u16
            } else {
                0
            }
        } else if self.viewport.y + amount > u16::MAX {
            u16::MAX
        } else {
            (self.viewport.y + amount) as u16
        }
    }

    /// The top line after scrolling up by `amount`.
    pub open spec fn scrolled_up(self, amount: u16) -> u16 {
        if self.viewport.y >= amount {
            (self.viewport.y - amount) as u16
        } else {
            0
        }
    }

    /// The viewport with its top at line `y`.
    pub open spec fn scroll_to(self, y: u16) -> PageModel {
        PageModel { viewport: Viewport { y, ..self.viewport }, ..self }
    }

    /// One step down: of the outline cursor where the outline has the focus,
    /// of the viewport otherwise.
    pub open spec fn scroll_down(self, amount: u16) -> PageModel {
        if self.is_contents {
            PageModel { contents_selected: Some(self.next_section()), ..self }
        } else {
            self.scroll_to(self.scrolled_down(amount))
        }
    }

    /// One step up: of the outline cursor where the outline has the focus,
    /// of the viewport otherwise.
    pub open spec fn scroll_up(self, amount: u16) -> PageModel {
        if self.is_contents {
            PageModel { contents_selected: Some(self.prev_section()), ..self }
        } else {
            self.scroll_to(self.scrolled_up(amount))
        }
    }
}

/// The anchor that stands for the top of the page.
pub open spec fn content_top() -> Seq<char> {
    "Content_Top"@
}

/// Whether node `i` is a link with a word on one of the lines from `from` up
/// to `to`.
pub open spec fn shows_link(
    nodes: Seq<Node>,
    lines: Seq<Seq<WordView>>,
    from: int,
    to: int,
    i: int,
) -> bool {
    &&& 0 <= i < nodes.len()
    &&& nodes[i].data.is_link()
    &&& first_line(lines, nodes.len() as int, i, nodes[i].last_descendant as int, from, to) is Some
}

/// The first link among the nodes from `lo` to `hi` that shows on the lines
/// from `from` up to `to`.
pub open spec fn first_shown_link(
    nodes: Seq<Node>,
    lines: Seq<Seq<WordView>>,
    from: int,
    to: int,
    lo: int,
    hi: int,
) -> Option<int>
    decreases hi - lo + 1,
{
    if lo > hi || lo < 0 || hi >= nodes.len() {
        None
    } else if shows_link(nodes, lines, from, to, lo) {
        Some(lo)
    } else {
        first_shown_link(nodes, lines, from, to, lo + 1, hi)
    }
}

/// The last link among the nodes from `lo` to `hi` that shows on the lines
/// from `from` up to `to`.
pub open spec fn last_shown_link(
    nodes: Seq<Node>,
    lines: Seq<Seq<WordView>>,
    from: int,
    to: int,
    lo: int,
    hi: int,
) -> Option<int>
    decreases hi - lo + 1,
{
    if lo > hi || lo < 0 || hi >= nodes.len() {
        None
    } else if shows_link(nodes, lines, from, to, hi) {
        Some(hi)
    } else {
        last_shown_link(nodes, lines, from, to, lo, hi - 1)
    }
}

impl PageModel {
    /// The nodes of the page.
    pub open spec fn nodes(self) -> Seq<Node> {
        self.page.content@
    }

    /// Index of the last node under the root.
    pub open spec fn root_end(self) -> int {
        self.nodes()[0].last_descendant as int
    }

    /// The render of the page at the viewport's width.
    pub open spec fn lines(self) -> Seq<Seq<WordView>> {
        rendered(self.nodes(), self.viewport.width)
    }

    /// The line after the last line that the viewport shows.
    pub open spec fn window_end(self) -> int {
        if self.viewport.y + self.viewport.height > self.lines().len() {
            self.lines().len() as int
        } else {
            self.viewport.y + self.viewport.height
        }
    }

    /// The selection set to the containment range of node `found`, or left
    /// as it is where nothing was found.
    pub open spec fn select(self, found: Option<int>) -> PageModel {
        match found {
            Some(i) => PageModel {
                selected: (i as usize, self.nodes()[i].last_descendant),
                ..self
            },
            None => self,
        }
    }

    /// The first link under the root selected.
    pub open spec fn select_first(self) -> PageModel {
        if self.nodes().len() == 0 {
            self
        } else {
            self.select(first_link(self.nodes(), 1, self.root_end()))
        }
    }

    /// The last link under the root selected.
    pub open spec fn select_last(self) -> PageModel {
        if self.nodes().len() == 0 {
            self
        } else {
            self.select(last_link(self.nodes(), 1, self.root_end()))
        }
    }

    /// The first link after the selected range selected.
    pub open spec fn select_next(self) -> PageModel {
        if self.nodes().len() == 0 {
            self
        } else {
            self.select(first_link(self.nodes(), self.selected.1 + 1, self.root_end()))
        }
    }

    /// The last link before the selected range selected.
    pub open spec fn select_prev(self) -> PageModel {
        if self.nodes().len() == 0 {
            self
        } else {
            let before = self.selected.0 - 1;
            let hi = if before > self.root_end() {
                self.root_end()
            } else {
                before
            };
            self.select(last_link(self.nodes(), 1, hi))
        }
    }

    /// The first link that shows in the viewport selected.
    pub open spec fn select_top(self) -> PageModel {
        if self.nodes().len() == 0 {
            self
        } else {
            self.select(
                first_shown_link(
                    self.nodes(),
                    self.lines(),
                    self.viewport.y as int,
                    self.window_end(),
                    1,
                    self.root_end(),
                ),
            )
        }
    }

    /// The last link that shows in the viewport selected.
    pub open spec fn select_bottom(self) -> PageModel {
        if self.nodes().len() == 0 {
            self
        } else {
            self.select(
                last_shown_link(
                    self.nodes(),
                    self.lines(),
                    self.viewport.y as int,
                    self.window_end(),
                    1,
                    self.root_end(),
                ),
            )
        }
    }

    /// The page that the selected node links to, where it is an internal
    /// link.
    pub open spec fn link_target(self) -> Option<Seq<char>> {
        if self.selected.0 < self.nodes().len() {
            match self.nodes()[self.selected.0 as int].data {
                Data::WikiLink { page } => Some(page@),
                _ => None,
            }
        } else {
            None
        }
    }

    /// What activating the selection gives: the command to load the page
    /// that an internal link leads to, and nothing for any other node.
    pub open spec fn open_link(self) -> ActionResultView {
        match self.link_target() {
            Some(page) => ActionResultView::Consumed(Some(ActionView::LoadPage(page))),
            None => ActionResultView::Consumed(None),
        }
    }

    /// The line that a jump to `anchor` leads to: the first line of the
    /// render with a word from the last header under the root that has this
    /// identifier, or from a node below that header.
    pub open spec fn header_line(self, anchor: Seq<char>) -> Option<int> {
        if self.nodes().len() == 0 {
            None
        } else {
            match last_header(self.nodes(), anchor, 1, self.root_end()) {
                Some(h) => first_line(
                    self.lines(),
                    self.nodes().len() as int,
                    h,
                    self.nodes()[h].last_descendant as int,
                    0,
                    self.lines().len() as int,
                ),
                None => None,
            }
        }
    }

    /// The viewport moved to the header with the identifier `anchor`: to the
    /// top for the anchor of the top, to the header's line where there is
    /// one, and not at all otherwise.
    pub open spec fn select_header(self, anchor: Seq<char>) -> PageModel {
        if anchor == content_top() {
            self.scroll_to(0)
        } else {
            match self.header_line(anchor) {
                Some(k) => self.scroll_to(
                    if k > u16::MAX {
                        u16::MAX
                    } else {
                        k as u16
                    },
                ),
                None => self,
            }
        }
    }
}

impl PageModel {
    /// The state after a frame was made for a page area of `width` by
    /// `height`: the viewport has that size, and the render for `width` is
    /// kept.
    pub open spec fn render(self, width: u16, height: u16) -> PageModel {
        PageModel {
            viewport: Viewport { width, height, ..self.viewport },
            cache: if self.cache.contains_key(width) {
                self.cache
            } else {
                self.cache.insert(width, rendered(self.nodes(), width))
            },
            ..self
        }
    }

    /// The lines of the frame of this state.
    pub open spec fn frame(self) -> Seq<Seq<SpanView>> {
        frame_lines(
            self.lines(),
            self.nodes().len() as int,
            self.viewport,
            self.selected,
            self.page.title@,
        )
    }

    /// The section that the outline cursor is on.
    pub open spec fn selected_section(self) -> Option<Section> {
        match (self.page.sections, self.contents_selected) {
            (Some(sections), Some(i)) => if i < sections@.len() {
                Some(sections@[i as int])
            } else {
                None
            },
            _ => None,
        }
    }

    /// What a key press leads to.
    pub open spec fn handle_key_events(self, key: KeyEvent) -> ActionResultView {
        let page = |action: PageActionView| ActionResultView::Consumed(Some(ActionView::Page(action)));
        if self.is_contents {
            if key.code == KeyCode::Char('t') {
                page(PageActionView::ToggleContents)
            } else if key.code == KeyCode::Enter {
                match self.selected_section() {
                    Some(section) => page(PageActionView::GoToHeader(section.anchor@)),
                    None => ActionResultView::Ignored,
                }
            } else {
                ActionResultView::Ignored
            }
        } else if key.code == KeyCode::Char('r') && key.control {
            page(PageActionView::SwitchRenderer(self.renderer.next()))
        } else if key.code == KeyCode::Char('t') {
            page(PageActionView::ToggleContents)
        } else if key.code == KeyCode::Left && key.shift {
            page(PageActionView::SelectFirstLink)
        } else if key.code == KeyCode::Right && key.shift {
            page(PageActionView::SelectLastLink)
        } else if key.code == KeyCode::Up && key.shift {
            page(PageActionView::SelectTopLink)
        } else if key.code == KeyCode::Down && key.shift {
            page(PageActionView::SelectBottomLink)
        } else if key.code == KeyCode::Left {
            page(PageActionView::SelectPrevLink)
        } else if key.code == KeyCode::Right {
            page(PageActionView::SelectNextLink)
        } else if key.code == KeyCode::Enter {
            self.open_link()
        } else {
            ActionResultView::Ignored
        }
    }

    /// The keys that the component answers to outside the outline, each with
    /// what it leads to.
    pub open spec fn keymap(self) -> Seq<(KeyEvent, ActionResultView)> {
        let page = |action: PageActionView| ActionResultView::Consumed(Some(ActionView::Page(action)));
        seq![
            (
                KeyEvent { code: KeyCode::Char('r'), shift: false, control: true },
                page(PageActionView::SwitchRenderer(self.renderer.next())),
            ),
            (
                KeyEvent { code: KeyCode::Left, shift: true, control: false },
                page(PageActionView::SelectFirstLink),
            ),
            (
                KeyEvent { code: KeyCode::Left, shift: false, control: false },
                page(PageActionView::SelectPrevLink),
            ),
            (
                KeyEvent { code: KeyCode::Right, shift: true, control: false },
                page(PageActionView::SelectLastLink),
            ),
            (
                KeyEvent { code: KeyCode::Right, shift: false, control: false },
                page(PageActionView::SelectNextLink),
            ),
            (
                KeyEvent { code: KeyCode::Up, shift: true, control: false },
                page(PageActionView::SelectTopLink),
            ),
            (
                KeyEvent { code: KeyCode::Down, shift: true, control: false },
                page(PageActionView::SelectBottomLink),
            ),
        ]
    }

    /// The state after the command `action`.
    pub open spec fn apply(self, action: ActionView) -> PageModel {
        match action {
            ActionView::Page(PageActionView::SwitchRenderer(renderer)) => self.switch_renderer(
                renderer,
            ),
            ActionView::Page(PageActionView::ToggleContents) => PageModel {
                is_contents: !self.is_contents,
                ..self
            },
            ActionView::Page(PageActionView::SelectFirstLink) => self.select_first(),
            ActionView::Page(PageActionView::SelectLastLink) => self.select_last(),
            ActionView::Page(PageActionView::SelectTopLink) => self.select_top(),
            ActionView::Page(PageActionView::SelectBottomLink) => self.select_bottom(),
            ActionView::Page(PageActionView::SelectPrevLink) => self.select_prev(),
            ActionView::Page(PageActionView::SelectNextLink) => self.select_next(),
            ActionView::Page(PageActionView::GoToHeader(anchor)) => self.select_header(anchor),
            ActionView::ScrollUp(amount) => self.scroll_up(amount),
            ActionView::ScrollDown(amount) => self.scroll_down(amount),
            ActionView::ScrollHalfUp => self.scroll_up(self.viewport.height / 2),
            ActionView::ScrollHalfDown => self.scroll_down(self.viewport.height / 2),
            ActionView::ScrollToTop => self.scroll_to(0),
            ActionView::ScrollToBottom => if self.cache.contains_key(self.viewport.width) {
                self.scroll_down(line_count(self.cache[self.viewport.width]))
            } else {
                self
            },
            ActionView::Resize(width, height) => self.resize(width, height),
            ActionView::LoadPage(_) => self,
        }
    }

    /// Whether the command `action` is one for this component.
    pub open spec fn handles(action: ActionView) -> bool {
        !(action is LoadPage)
    }
}

/// `times` presses of next-link in a row.
pub open spec fn repeat_next(model: PageModel, times: nat) -> PageModel
    decreases times,
{
    if times == 0 {
        model
    } else {
        repeat_next(model, (times - 1) as nat).select_next()
    }
}

/// `times` presses of previous-link in a row.
pub open spec fn repeat_prev(model: PageModel, times: nat) -> PageModel
    decreases times,
{
    if times == 0 {
        model
    } else {
        repeat_prev(model, (times - 1) as nat).select_prev()
    }
}

/// Renders of different widths are kept apart: making a frame at `width`
/// neither adds, nor drops, nor changes the render that is kept for another
/// width.
pub proof fn lemma_render_keeps_other_widths(model: PageModel, width: u16, height: u16, other: u16)
    requires
        width != other,
    ensures
        model.render(width, height).cache.contains_key(other) == model.cache.contains_key(other),
        model.cache.contains_key(other) ==> model.render(width, height).cache[other]
            == model.cache[other],
{
}

/// Making a frame twice at one width, with no flush between, changes nothing
/// the second time: the state is the same, the frame is the same, and the
/// render that is kept is the render of the document at that width.
pub proof fn lemma_render_twice(model: PageModel, width: u16, height: u16)
    requires
        model.wf(),
    ensures
        model.render(width, height).render(width, height) == model.render(width, height),
        model.render(width, height).render(width, height).frame() == model.render(
            width,
            height,
        ).frame(),
        model.render(width, height).cache.contains_key(width),
        model.render(width, height).cache[width] == rendered(model.nodes(), width),
        model.render(width, height).wf(),
{
    let once = model.render(width, height);
    assert(once.render(width, height).cache =~= once.cache);
}

/// A resize drops every kept render, so that none is used again, and puts the
/// selection back at its default.
pub proof fn lemma_resize_flushes(model: PageModel, width: u16, height: u16)
    ensures
        forall|w: u16| !model.resize(width, height).cache.contains_key(w),
        model.resize(width, height).selected == (0usize, 0usize),
        model.resize(width, height).viewport.width == width,
        model.resize(width, height).viewport.height == height,
{
}

/// Next-link moves the selection forward or not at all: the new range is
/// that of a link, and it starts after the end of the old one.
pub proof fn lemma_select_next_moves_forward(model: PageModel)
    requires
        model.wf(),
    ensures
        model.select_next() == model || ({
            let next = model.select_next().selected;
            &&& model.selected.1 < next.0 <= next.1 < model.nodes().len()
            &&& model.nodes()[next.0 as int].data.is_link()
            &&& next.1 == model.nodes()[next.0 as int].last_descendant
            &&& forall|k: int|
                model.selected.1 < k < next.0 ==> !(#[trigger] model.nodes()[k]).data.is_link()
        }),
{
    if model.nodes().len() > 0 {
        lemma_first_link(model.nodes(), model.selected.1 + 1, model.root_end());
    }
}

/// Previous-link moves the selection backward or not at all: the new range
/// is that of a link, and it starts before the start of the old one.
pub proof fn lemma_select_prev_moves_backward(model: PageModel)
    requires
        model.wf(),
    ensures
        model.select_prev() == model || ({
            let prev = model.select_prev().selected;
            &&& 1 <= prev.0 < model.selected.0
            &&& prev.0 < model.nodes().len()
            &&& model.nodes()[prev.0 as int].data.is_link()
            &&& prev.1 == model.nodes()[prev.0 as int].last_descendant
        }),
{
    if model.nodes().len() > 0 {
        let before = model.selected.0 - 1;
        let hi = if before > model.root_end() {
            model.root_end()
        } else {
            before
        };
        lemma_last_link(model.nodes(), 1, hi);
    }
}

/// There is no wrap-around at the end: from the last link, next-link leaves
/// the selection where it is, however often it is pressed.
pub proof fn lemma_next_from_last_link(model: PageModel, times: nat)
    requires
        model.wf(),
    ensures
        repeat_next(model.select_last(), times) == model.select_last(),
    decreases times,
{
    if times > 0 {
        lemma_next_from_last_link(model, (times - 1) as nat);
        let last = model.select_last();
        if model.nodes().len() > 0 {
            lemma_last_link(model.nodes(), 1, model.root_end());
            lemma_first_link(last.nodes(), last.selected.1 + 1, last.root_end());
        }
    }
}

/// There is no wrap-around at the start: from the first link, previous-link
/// leaves the selection where it is, however often it is pressed.
pub proof fn lemma_prev_from_first_link(model: PageModel, times: nat)
    requires
        model.wf(),
    ensures
        repeat_prev(model.select_first(), times) == model.select_first(),
    decreases times,
{
    if times > 0 {
        lemma_prev_from_first_link(model, (times - 1) as nat);
        let first = model.select_first();
        if model.nodes().len() > 0 {
            lemma_first_link(model.nodes(), 1, model.root_end());
            let before = first.selected.0 - 1;
            let hi = if before > first.root_end() {
                first.root_end()
            } else {
                before
            };
            lemma_last_link(first.nodes(), 1, hi);
        }
    }
}

/// Scrolling down stays within the kept render: the viewport never starts
/// further down than the line that puts the end of the render at its bottom.
pub proof fn lemma_scroll_down_is_clamped(model: PageModel, amount: u16)
    requires
        !model.is_contents,
        model.cache.contains_key(model.viewport.width),
    ensures
        ({
            let lines = line_count(model.cache[model.viewport.width]);
            let y = model.scroll_down(amount).viewport.y;
            y + model.viewport.height <= lines || y == 0
        }),
{
}

/// Scrolling up never goes above the top, and never down.
pub proof fn lemma_scroll_up_is_clamped(model: PageModel, amount: u16)
    requires
        !model.is_contents,
    ensures
        model.scroll_up(amount).viewport.y == if model.viewport.y >= amount {
            model.viewport.y - amount
        } else {
            0
        },
        model.scroll_up(amount).viewport.y <= model.viewport.y,
{
}

/// The outline cursor goes round: a step down from the last section leads to
/// the first, a step up from the first to the last, and every other step to
/// the section next to it.
pub proof fn lemma_outline_cursor_wraps(model: PageModel, amount: u16)
    requires
        model.wf(),
        model.is_contents,
        model.section_count > 0,
        model.contents_selected is Some,
    ensures
        model.scroll_down(amount).contents_selected == Some(
            ((model.contents_selected->0 + 1) % (model.section_count as int)) as usize,
        ),
        model.scroll_up(amount).contents_selected == Some(
            ((model.contents_selected->0 + model.section_count - 1) % (
            model.section_count as int)) as usize,
        ),
        model.scroll_down(amount).wf(),
        model.scroll_up(amount).wf(),
{
    let i = model.contents_selected->0 as int;
    let n = model.section_count as int;
    assert(0 <= i < n);
    if i + 1 < n {
        vstd::arithmetic::div_mod::lemma_small_mod((i + 1) as nat, n as nat);
    } else {
        vstd::arithmetic::div_mod::lemma_mod_self_0(n);
    }
    if i == 0 {
        vstd::arithmetic::div_mod::lemma_small_mod((n - 1) as nat, n as nat);
    } else {
        vstd::arithmetic::div_mod::lemma_mod_add_multiples_vanish(i - 1, n);
        vstd::arithmetic::div_mod::lemma_small_mod((i - 1) as nat, n as nat);
    }
}

impl View for PageComponent {
    type V = PageModel;

    closed spec fn view(&self) -> PageModel {
        PageModel {
            page: self.page,
            renderer: self.renderer,
            cache: Map::new(
                |w: u16| self.render_cache@.contains_key(w),
                |w: u16| self.render_cache@[w]@,
            ),
            viewport: self.viewport,
            selected: self.selected,
            is_contents: self.is_contents,
            contents_selected: self.contents_state.selected,
            section_count: self.contents_state.max_idx_section,
        }
    }
}

impl PageComponent {
    /// The invariant of the component.
    pub open spec fn wf(&self) -> bool {
        self@.wf()
    }

    /// A component that shows `page`, with nothing rendered yet.
    pub fn new(page: Page) -> (r: PageComponent)
        requires
            page.content.wf(),
        ensures
            r@ == PageModel::start(page),
            r.wf(),
    {
        let max_idx_section = match page.sections() {
            Some(sections) => sections.len(),
            None => 0,
        };
        let r = PageComponent {
            page,
            renderer: Renderer::Default,
            render_cache: HashMap::new(),
            viewport: Viewport { y: 0, width: 0, height: 0 },
            selected: (0, 0),
            is_contents: false,
            contents_state: PageContentsState { selected: Some(0), max_idx_section },
        };
        assert(r@.cache =~= Map::empty());
        r
    }

    /// The page on show.
    pub fn page(&self) -> (r: &Page)
        ensures
            *r == self@.page,
    {
        &self.page
    }

    /// The renderer in use.
    pub fn renderer(&self) -> (r: Renderer)
        ensures
            r == self@.renderer,
    {
        self.renderer
    }

    /// The viewport.
    pub fn viewport(&self) -> (r: Viewport)
        ensures
            r == self@.viewport,
    {
        self.viewport
    }

    /// The containment range of the selected link.
    pub fn selected(&self) -> (r: (usize, usize))
        ensures
            r == self@.selected,
    {
        self.selected
    }

    /// Whether the outline panel has the focus.
    pub fn is_contents(&self) -> (r: bool)
        ensures
            r == self@.is_contents,
    {
        self.is_contents
    }

    /// The state of the outline cursor.
    pub fn contents_state(&self) -> (r: PageContentsState)
        ensures
            r.selected == self@.contents_selected,
            r.max_idx_section == self@.section_count,
    {
        self.contents_state
    }

    /// Whether a render for `width` is kept.
    pub fn is_cached(&self, width: u16) -> (r: bool)
        ensures
            r == self@.cache.contains_key(width),
    {
        self.render_cache.contains_key(&width)
    }

    /// Renders the page at `width` with the renderer in use.
    pub fn render_page(&self, width: u16) -> (r: RenderedDocument)
        requires
            self.wf(),
        ensures
            r@ == rendered(self@.page.content@, width),
    {
        match self.renderer {
            Renderer::Default => render_document(&self.page.content, width),
        }
    }

    /// Switches to `renderer`, flushes the cache and scrolls to the top.
    pub fn switch_renderer(&mut self, renderer: Renderer)
        requires
            old(self).wf(),
        ensures
            final(self)@ == old(self)@.switch_renderer(renderer),
            final(self).wf(),
    {
        self.renderer = renderer;
        self.flush_cache();
        self.viewport.y = 0;
    }

    /// Drops every kept render and resets the selection.
    pub fn flush_cache(&mut self)
        requires
            old(self).wf(),
        ensures
            final(self)@ == old(self)@.flush_cache(),
            final(self).wf(),
    {
        self.render_cache.clear();
        self.selected = (0, 0);
        assert(self@.cache =~= Map::empty());
    }

    /// Sets the size of the viewport, and flushes the cache.
    pub fn resize(&mut self, width: u16, height: u16)
        requires
            old(self).wf(),
        ensures
            final(self)@ == old(self)@.resize(width, height),
            final(self).wf(),
    {
        self.viewport.width = width;
        self.viewport.height = height;
        self.flush_cache();
    }

    /// Scrolls down by `amount` lines, no further than the end of the kept
    /// render; with the outline in focus, moves its cursor to the next
    /// section instead, and from the last to the first.
    pub fn scroll_down(&mut self, amount: u16)
        requires
            old(self).wf(),
        ensures
            final(self)@ == old(self)@.scroll_down(amount),
            final(self).wf(),
    {
        if self.is_contents {
            let count = self.contents_state.max_idx_section;
            let i = match self.contents_state.selected {
                Some(i) => {
                    if count == 0 || i >= count - 1 {
                        0
                    } else {
                        i + 1
                    }
                },
                None => 0,
            };
            self.contents_state.selected = Some(i);
            return ;
        }
        let bottom = self.viewport.bottom();
        let height = self.viewport.height;
        if let Some(page) = self.render_cache.get(&self.viewport.width) {
            let n_lines: u16 = if page.lines.len() > u16::MAX as usize {
                u16::MAX
            } else {
                page.lines.len() as u16
            };
            if bottom as u32 + amount as u32 >= n_lines as u32 {
                self.viewport.y = n_lines.saturating_sub(height);
                return ;
            }
        }
        self.viewport.y = self.viewport.y.saturating_add(amount);
    }

    /// Scrolls up by `amount` lines, no further than the top; with the
    /// outline in focus, moves its cursor to the section before instead, and
    /// from the first to the last.
    pub fn scroll_up(&mut self, amount: u16)
        requires
            old(self).wf(),
        ensures
            final(self)@ == old(self)@.scroll_up(amount),
            final(self).wf(),
    {
        if self.is_contents {
            let count = self.contents_state.max_idx_section;
            let i = match self.contents_state.selected {
                Some(i) => {
                    if i == 0 {
                        if count == 0 {
                            0
                        } else {
                            count - 1
                        }
                    } else {
                        i - 1
                    }
                },
                None => 0,
            };
            self.contents_state.selected = Some(i);
            return ;
        }
        self.viewport.y = self.viewport.y.saturating_sub(amount);
    }
    /// Sets the selection to the containment range of node `found`, if any.
    fn select(&mut self, found: Option<usize>)
        requires
            old(self).wf(),
            found matches Some(i) ==> i < old(self)@.nodes().len(),
        ensures
            final(self)@ == old(self)@.select(
                match found {
                    Some(i) => Some(i as int),
                    None => None,
                },
            ),
            final(self).wf(),
    {
        if let Some(index) = found {
            let last = self.page.content.last_descendant(index);
            self.selected = (index, last);
        }
    }

    /// Selects the first link of the page.
    pub fn select_first(&mut self)
        requires
            old(self).wf(),
        ensures
            final(self)@ == old(self)@.select_first(),
            final(self).wf(),
    {
        if self.page.content.is_empty() {
            return ;
        }
        let end = self.page.content.last_descendant(0);
        let found = self.page.content.first_link(1, end);
        proof {
            lemma_first_link(self@.nodes(), 1, end as int);
        }
        self.select(found);
    }

    /// Selects the last link of the page.
    pub fn select_last(&mut self)
        requires
            old(self).wf(),
        ensures
            final(self)@ == old(self)@.select_last(),
            final(self).wf(),
    {
        if self.page.content.is_empty() {
            return ;
        }
        let end = self.page.content.last_descendant(0);
        let found = self.page.content.last_link(1, end);
        proof {
            lemma_last_link(self@.nodes(), 1, end as int);
        }
        self.select(found);
    }

    /// Selects the first link after the selected one; leaves the selection
    /// where there is none.
    pub fn select_next(&mut self)
        requires
            old(self).wf(),
        ensures
            final(self)@ == old(self)@.select_next(),
            final(self).wf(),
    {
        if self.page.content.is_empty() {
            return ;
        }
        let end = self.page.content.last_descendant(0);
        if self.selected.1 >= end {
            return ;
        }
        let found = self.page.content.first_link(self.selected.1 + 1, end);
        proof {
            lemma_first_link(self@.nodes(), self.selected.1 + 1, end as int);
        }
        self.select(found);
    }

    /// Selects the last link before the selected one; leaves the selection
    /// where there is none.
    pub fn select_prev(&mut self)
        requires
            old(self).wf(),
        ensures
            final(self)@ == old(self)@.select_prev(),
            final(self).wf(),
    {
        if self.page.content.is_empty() {
            return ;
        }
        let end = self.page.content.last_descendant(0);
        if self.selected.0 == 0 {
            return ;
        }
        let before = self.selected.0 - 1;
        let hi = if before > end {
            end
        } else {
            before
        };
        let found = self.page.content.last_link(1, hi);
        proof {
            lemma_last_link(self@.nodes(), 1, hi as int);
        }
        self.select(found);
    }

    /// Index of the first or of the last link under the root of `document`
    /// that has a word among the lines of `rendered` that `viewport` shows.
    pub fn shown_link(
        document: &Document,
        rendered: &RenderedDocument,
        viewport: Viewport,
        first: bool,
    ) -> (r: Option<usize>)
        requires
            document.wf(),
            document@.len() > 0,
        ensures
            ({
                let to = if viewport.y + viewport.height > rendered@.len() {
                    rendered@.len() as int
                } else {
                    viewport.y + viewport.height
                };
                let end = document@[0].last_descendant as int;
                let found = if first {
                    first_shown_link(document@, rendered@, viewport.y as int, to, 1, end)
                } else {
                    last_shown_link(document@, rendered@, viewport.y as int, to, 1, end)
                };
                match r {
                    Some(i) => found == Some(i as int) && i < document@.len(),
                    None => found is None,
                }
            }),
    {
        let count = document.len();
        let end = document.last_descendant(0);
        let from = viewport.y as usize;
        let reach = viewport.y as usize + viewport.height as usize;
        let to = if reach > rendered.lines.len() {
            rendered.lines.len()
        } else {
            reach
        };
        assert(rendered@.len() == rendered.lines@.len());
        if first {
            let mut i: usize = 1;
            while i <= end
                invariant
                    first,
                    from == viewport.y,
                    to == if viewport.y + viewport.height > rendered@.len() {
                        rendered@.len() as int
                    } else {
                        viewport.y + viewport.height
                    },
                    document.wf(),
                    1 <= i,
                    end < count == document@.len(),
                    end == document@[0].last_descendant,
                    first_shown_link(
                        document@,
                        rendered@,
                        from as int,
                        to as int,
                        1,
                        end as int,
                    ) == first_shown_link(
                        document@,
                        rendered@,
                        from as int,
                        to as int,
                        i as int,
                        end as int,
                    ),
                decreases end + 1 - i,
            {
                if document.data(i).is_link() {
                    let last = document.last_descendant(i);
                    if rendered.find_line(document, i, last, from, to).is_some() {
                        return Some(i);
                    }
                }
                i = i + 1;
            }
            None
        } else {
            let mut i: usize = end;
            while i >= 1
                invariant
                    !first,
                    from == viewport.y,
                    to == if viewport.y + viewport.height > rendered@.len() {
                        rendered@.len() as int
                    } else {
                        viewport.y + viewport.height
                    },
                    document.wf(),
                    end == document@[0].last_descendant,
                    i <= end < document@.len(),
                    last_shown_link(
                        document@,
                        rendered@,
                        from as int,
                        to as int,
                        1,
                        end as int,
                    ) == last_shown_link(
                        document@,
                        rendered@,
                        from as int,
                        to as int,
                        1,
                        i as int,
                    ),
                decreases i,
            {
                if document.data(i).is_link() {
                    let last = document.last_descendant(i);
                    if rendered.find_line(document, i, last, from, to).is_some() {
                        return Some(i);
                    }
                }
                i = i - 1;
            }
            None
        }
    }

    /// Index of the first or of the last link that shows in the viewport.
    fn link_in_view(&self, first: bool) -> (r: Option<usize>)
        requires
            self.wf(),
            self@.nodes().len() > 0,
        ensures
            ({
                let m = self@;
                let found = if first {
                    first_shown_link(
                        m.nodes(),
                        m.lines(),
                        m.viewport.y as int,
                        m.window_end(),
                        1,
                        m.root_end(),
                    )
                } else {
                    last_shown_link(
                        m.nodes(),
                        m.lines(),
                        m.viewport.y as int,
                        m.window_end(),
                        1,
                        m.root_end(),
                    )
                };
                match r {
                    Some(i) => found == Some(i as int) && i < m.nodes().len(),
                    None => found is None,
                }
            }),
    {
        let width = self.viewport.width;
        match self.render_cache.get(&width) {
            Some(rendered) => {
                assert(self@.cache.contains_key(width));
                PageComponent::shown_link(&self.page.content, rendered, self.viewport, first)
            },
            None => {
                let rendered = self.render_page(width);
                PageComponent::shown_link(&self.page.content, &rendered, self.viewport, first)
            },
        }
    }

    /// Selects the first link that shows in the viewport; leaves the
    /// selection where none does.
    pub fn select_top(&mut self)
        requires
            old(self).wf(),
        ensures
            final(self)@ == old(self)@.select_top(),
            final(self).wf(),
    {
        if self.page.content.is_empty() {
            return ;
        }
        let found = self.link_in_view(true);
        self.select(found);
    }

    /// Selects the last link that shows in the viewport; leaves the
    /// selection where none does.
    pub fn select_bottom(&mut self)
        requires
            old(self).wf(),
        ensures
            final(self)@ == old(self)@.select_bottom(),
            final(self).wf(),
    {
        if self.page.content.is_empty() {
            return ;
        }
        let found = self.link_in_view(false);
        self.select(found);
    }

    /// Activates the selection: an internal link gives the command to load
    /// its page, any other node nothing.
    pub fn open_link(&self) -> (r: ActionResult)
        requires
            self.wf(),
        ensures
            r@ == self@.open_link(),
    {
        let index = self.selected.0;
        if index < self.page.content.len() {
            match self.page.content.data(index) {
                Data::WikiLink { page } => {
                    return ActionResult::from_action(Action::LoadPage(page.clone()));
                },
                _ => {},
            }
        }
        ActionResult::consumed()
    }

    /// Index of the line in `rendered` that a jump to the header `anchor` of
    /// `document` leads to.
    pub fn header_line(document: &Document, rendered: &RenderedDocument, anchor: &String) -> (r:
        Option<usize>)
        requires
            document.wf(),
        ensures
            ({
                let found = if document@.len() == 0 {
                    None
                } else {
                    match last_header(document@, anchor@, 1, document@[0].last_descendant as int) {
                        Some(h) => first_line(
                            rendered@,
                            document@.len() as int,
                            h,
                            document@[h].last_descendant as int,
                            0,
                            rendered@.len() as int,
                        ),
                        None => None,
                    }
                };
                match r {
                    Some(k) => found == Some(k as int),
                    None => found is None,
                }
            }),
    {
        if document.is_empty() {
            return None;
        }
        let end = document.last_descendant(0);
        assert(rendered@.len() == rendered.lines@.len());
        match document.last_header(anchor, 1, end) {
            Some(header) => {
                proof {
                    crate::document::lemma_last_header(document@, anchor@, 1, end as int);
                }
                let last = document.last_descendant(header);
                rendered.find_line(document, header, last, 0, rendered.lines.len())
            },
            None => None,
        }
    }

    /// Index of the line that a jump to the header `anchor` leads to.
    fn jump_target(&self, anchor: &String) -> (r: Option<usize>)
        requires
            self.wf(),
        ensures
            match r {
                Some(k) => self@.header_line(anchor@) == Some(k as int),
                None => self@.header_line(anchor@) is None,
            },
    {
        let width = self.viewport.width;
        match self.render_cache.get(&width) {
            Some(rendered) => {
                assert(self@.cache.contains_key(width));
                PageComponent::header_line(&self.page.content, rendered, anchor)
            },
            None => {
                let rendered = self.render_page(width);
                PageComponent::header_line(&self.page.content, &rendered, anchor)
            },
        }
    }

    /// Moves the viewport to the header with the identifier `anchor`: to the
    /// top for the anchor of the top of the page, to the first line of the
    /// header where the page has it, and not at all otherwise.
    pub fn select_header(&mut self, anchor: String)
        requires
            old(self).wf(),
        ensures
            final(self)@ == old(self)@.select_header(anchor@),
            final(self).wf(),
    {
        let top = "Content_Top".to_owned();
        if anchor == top {
            self.viewport.y = 0;
            return ;
        }
        match self.jump_target(&anchor) {
            Some(line) => {
                self.viewport.y = if line > u16::MAX as usize {
                    u16::MAX
                } else {
                    line as u16
                };
            },
            None => {},
        }
    }
    /// A word as a span: underlined where it came from a node of the
    /// selected range.
    pub fn span(word: &Word, document: &Document, selected: (usize, usize)) -> (r: Span)
        ensures
            r@ == span_of(word@, document@.len() as int, selected),
    {
        let style = match word.node(document) {
            Some(index) => {
                if selected.0 <= index && index <= selected.1 {
                    word.style.patch(Style::new().add_modifier(Modifier::Underlined))
                } else {
                    word.style
                }
            },
            None => word.style,
        };
        Span { content: word.text(), style }
    }

    /// The spans of a line.
    pub fn spans(line: &Vec<Word>, document: &Document, selected: (usize, usize)) -> (r: Vec<
        Span,
    >)
        ensures
            span_views(r@) == shown_line(
                crate::renderer::views(line@),
                document@.len() as int,
                selected,
            ),
    {
        let mut out: Vec<Span> = Vec::new();
        let ghost goal = shown_line(
            crate::renderer::views(line@),
            document@.len() as int,
            selected,
        );
        let mut j: usize = 0;
        while j < line.len()
            invariant
                j <= line.len(),
                goal == shown_line(
                    crate::renderer::views(line@),
                    document@.len() as int,
                    selected,
                ),
                span_views(out@) == goal.take(j as int),
            decreases line.len() - j,
        {
            let span = PageComponent::span(&line[j], document, selected);
            proof {
                assert(crate::renderer::views(line@)[j as int] == line@[j as int]@);
                assert(goal[j as int] == span@);
                assert(span_views(out@.push(span)) =~= span_views(out@).push(span@));
                assert(goal.take(j as int).push(span@) =~= goal.take(j + 1));
            }
            out.push(span);
            j = j + 1;
        }
        assert(goal.take(j as int) =~= goal);
        out
    }

    /// The lines that a frame shows of `rendered`, for a viewport, a
    /// selection and the title of the page.
    pub fn frame_lines(
        document: &Document,
        rendered: &RenderedDocument,
        viewport: Viewport,
        selected: (usize, usize),
        title: &String,
    ) -> (r: Vec<Vec<Span>>)
        ensures
            frame_views(r@) == frame_lines(
                rendered@,
                document@.len() as int,
                viewport,
                selected,
                title@,
            ),
    {
        let count = rendered.lines.len();
        assert(rendered@.len() == count);
        let from: usize = if viewport.y as usize > count {
            count
        } else {
            viewport.y as usize
        };
        let bottom = viewport.bottom() as usize;
        let to: usize = if bottom > count - from {
            count
        } else {
            from + bottom
        };
        let ghost body = Seq::new(
            (to - from) as nat,
            |k: int| shown_line(rendered@[from + k], document@.len() as int, selected),
        );
        let mut lines: Vec<Vec<Span>> = Vec::new();
        if viewport.y == 0 {
            let mut line: Vec<Span> = Vec::new();
            line.push(
                Span {
                    content: title.clone(),
                    style: Style::new().fg(Color::Red).add_modifier(Modifier::Bold),
                },
            );
            assert(span_views(line@) =~= title_line(title@));
            lines.push(line);
        }
        let ghost lead = frame_views(lines@);
        assert(lead =~= if viewport.y == 0 {
            seq![title_line(title@)]
        } else {
            Seq::<Seq<SpanView>>::empty()
        });
        let mut k: usize = from;
        while k < to
            invariant
                from <= k <= to <= count,
                count == rendered.lines.len(),
                rendered@.len() == count,
                body == Seq::new(
                    (to - from) as nat,
                    |k: int| shown_line(rendered@[from + k], document@.len() as int, selected),
                ),
                frame_views(lines@) == lead + body.take(k - from),
            decreases to - k,
        {
            let line = PageComponent::spans(&rendered.lines[k], document, selected);
            proof {
                assert(rendered@[k as int] == crate::renderer::views(rendered.lines@[k as int]@));
                assert(body[k - from] == span_views(line@));
                assert(frame_views(lines@.push(line)) =~= frame_views(lines@).push(
                    span_views(line@),
                ));
                assert((lead + body.take(k - from)).push(span_views(line@)) =~= lead + body.take(
                    k + 1 - from,
                ));
            }
            lines.push(line);
            k = k + 1;
        }
        assert(body.take(to - from) =~= body);
        if viewport.y == 0 {
            lines.pop();
            assert(frame_views(lines@) =~= (lead + body).drop_last());
        }
        lines
    }

    /// Makes the frame for a page area of `width` by `height`: sets the size
    /// of the viewport, renders the page for that width unless the render is
    /// kept, and keeps it.
    pub fn render(&mut self, width: u16, height: u16) -> (r: Frame)
        requires
            old(self).wf(),
        ensures
            final(self)@ == old(self)@.render(width, height),
            final(self).wf(),
            frame_views(r.lines@) == final(self)@.frame(),
            r.scroll_position == final(self)@.viewport.y,
            r.scroll_length == if final(self)@.lines().len() >= height {
                final(self)@.lines().len() - height
            } else {
                0
            },
    {
        self.viewport.width = width;
        self.viewport.height = height;
        if !self.render_cache.contains_key(&width) {
            let rendered = self.render_page(width);
            self.render_cache.insert(width, rendered);
            assert(self@.cache =~= old(self)@.cache.insert(width, rendered@));
        } else {
            assert(self@.cache =~= old(self)@.cache);
        }
        assert(self@.cache.contains_key(width));
        match self.render_cache.get(&width) {
            Some(rendered) => {
                let lines = PageComponent::frame_lines(
                    &self.page.content,
                    rendered,
                    self.viewport,
                    self.selected,
                    &self.page.title,
                );
                assert(rendered@.len() == rendered.lines@.len());
                Frame {
                    lines,
                    scroll_length: rendered.lines.len().saturating_sub(height as usize),
                    scroll_position: self.viewport.y as usize,
                }
            },
            None => Frame { lines: Vec::new(), scroll_length: 0, scroll_position: 0 },
        }
    }

    /// What the outline panel shows.
    pub fn render_contents(&self) -> (r: ContentsPanel)
        ensures
            r.focused == self@.is_contents,
            r.selected == self@.contents_selected,
            match (self@.page.sections, r.items) {
                (Some(sections), Some(items)) => items@.len() == sections@.len() && forall|k: int|
                    0 <= k < items@.len() ==> (#[trigger] items@[k])@ == entry_text(sections@[k]),
                (None, None) => true,
                _ => false,
            },
    {
        let items = match self.page.sections() {
            Some(sections) => {
                let mut items: Vec<String> = Vec::new();
                let mut k: usize = 0;
                while k < sections.len()
                    invariant
                        k <= sections.len(),
                        items@.len() == k,
                        forall|i: int|
                            0 <= i < k ==> (#[trigger] items@[i])@ == entry_text(sections@[i]),
                    decreases sections.len() - k,
                {
                    let mut text = sections[k].number.clone();
                    proof {
                        reveal_strlit(" ");
                    }
                    text.append(" ");
                    text.append(sections[k].text.as_str());
                    assert(text@ =~= entry_text(sections@[k as int]));
                    items.push(text);
                    k = k + 1;
                }
                Some(items)
            },
            None => None,
        };
        ContentsPanel {
            focused: self.is_contents,
            items,
            selected: self.contents_state.selected,
        }
    }

    /// The section that the outline cursor is on.
    pub fn selected_header(&self) -> (r: Option<&Section>)
        ensures
            match r {
                Some(section) => self@.selected_section() == Some(*section),
                None => self@.selected_section() is None,
            },
    {
        match &self.page.sections {
            Some(sections) => match self.contents_state.selected {
                Some(index) => {
                    if index < sections.len() {
                        Some(&sections[index])
                    } else {
                        None
                    }
                },
                None => None,
            },
            None => None,
        }
    }

    /// What a key press leads to: in the outline, `t` gives the focus back
    /// and Enter jumps to the section under the cursor; on the page, the
    /// keys of the keymap, `t` and Enter, which activates the selection.
    pub fn handle_key_events(&self, key: KeyEvent) -> (r: ActionResult)
        requires
            self.wf(),
        ensures
            r@ == self@.handle_key_events(key),
    {
        if self.is_contents {
            return match key.code {
                KeyCode::Char(c) => {
                    if c == 't' {
                        ActionResult::from_action(Action::Page(PageAction::ToggleContents))
                    } else {
                        ActionResult::Ignored
                    }
                },
                KeyCode::Enter => match self.selected_header() {
                    Some(header) => ActionResult::from_action(
                        Action::Page(PageAction::GoToHeader(header.anchor.clone())),
                    ),
                    None => ActionResult::Ignored,
                },
                _ => ActionResult::Ignored,
            };
        }
        let action = match key.code {
            KeyCode::Char(c) => {
                if c == 'r' && key.control {
                    PageAction::SwitchRenderer(self.renderer.next())
                } else if c == 't' {
                    PageAction::ToggleContents
                } else {
                    return ActionResult::Ignored;
                }
            },
            KeyCode::Left => {
                if key.shift {
                    PageAction::SelectFirstLink
                } else {
                    PageAction::SelectPrevLink
                }
            },
            KeyCode::Right => {
                if key.shift {
                    PageAction::SelectLastLink
                } else {
                    PageAction::SelectNextLink
                }
            },
            KeyCode::Up => {
                if key.shift {
                    PageAction::SelectTopLink
                } else {
                    return ActionResult::Ignored;
                }
            },
            KeyCode::Down => {
                if key.shift {
                    PageAction::SelectBottomLink
                } else {
                    return ActionResult::Ignored;
                }
            },
            KeyCode::Enter => {
                return self.open_link();
            },
            KeyCode::Other => {
                return ActionResult::Ignored;
            },
        };
        ActionResult::from_action(Action::Page(action))
    }

    /// The keys that the component answers to on the page, each with what it
    /// leads to.
    pub fn keymap(&self) -> (r: Vec<(KeyEvent, ActionResult)>)
        ensures
            r@.len() == self@.keymap().len(),
            forall|k: int|
                0 <= k < r@.len() ==> (#[trigger] r@[k]).0 == self@.keymap()[k].0 && r@[k].1@
                    == self@.keymap()[k].1,
    {
        let mut keys: Vec<(KeyEvent, ActionResult)> = Vec::new();
        keys.push(
            (
                KeyEvent::with_control(KeyCode::Char('r')),
                ActionResult::from_action(
                    Action::Page(PageAction::SwitchRenderer(self.renderer.next())),
                ),
            ),
        );
        keys.push(
            (
                KeyEvent::with_shift(KeyCode::Left),
                ActionResult::from_action(Action::Page(PageAction::SelectFirstLink)),
            ),
        );
        keys.push(
            (
                KeyEvent::plain(KeyCode::Left),
                ActionResult::from_action(Action::Page(PageAction::SelectPrevLink)),
            ),
        );
        keys.push(
            (
                KeyEvent::with_shift(KeyCode::Right),
                ActionResult::from_action(Action::Page(PageAction::SelectLastLink)),
            ),
        );
        keys.push(
            (
                KeyEvent::plain(KeyCode::Right),
                ActionResult::from_action(Action::Page(PageAction::SelectNextLink)),
            ),
        );
        keys.push(
            (
                KeyEvent::with_shift(KeyCode::Up),
                ActionResult::from_action(Action::Page(PageAction::SelectTopLink)),
            ),
        );
        keys.push(
            (
                KeyEvent::with_shift(KeyCode::Down),
                ActionResult::from_action(Action::Page(PageAction::SelectBottomLink)),
            ),
        );
        keys
    }

    /// Carries out the command `action` where it is one for this component,
    /// and says whether it was.
    pub fn update(&mut self, action: Action) -> (r: ActionResult)
        requires
            old(self).wf(),
        ensures
            final(self)@ == old(self)@.apply(action@),
            final(self).wf(),
            r@ == if PageModel::handles(action@) {
                ActionResultView::Consumed(None)
            } else {
                ActionResultView::Ignored
            },
    {
        match action {
            Action::Page(page_action) => match page_action {
                PageAction::SwitchRenderer(renderer) => self.switch_renderer(renderer),
                PageAction::ToggleContents => {
                    self.is_contents = !self.is_contents;
                },
                PageAction::SelectFirstLink => self.select_first(),
                PageAction::SelectLastLink => self.select_last(),
                PageAction::SelectTopLink => self.select_top(),
                PageAction::SelectBottomLink => self.select_bottom(),
                PageAction::SelectPrevLink => self.select_prev(),
                PageAction::SelectNextLink => self.select_next(),
                PageAction::GoToHeader(anchor) => self.select_header(anchor),
            },
            Action::ScrollUp(amount) => self.scroll_up(amount),
            Action::ScrollDown(amount) => self.scroll_down(amount),
            Action::ScrollHalfUp => self.scroll_up(self.viewport.height / 2),
            Action::ScrollHalfDown => self.scroll_down(self.viewport.height / 2),
            Action::ScrollToTop => {
                self.viewport.y = 0;
            },
            Action::ScrollToBottom => {
                let width = self.viewport.width;
                let lines: Option<u16> = match self.render_cache.get(&width) {
                    Some(page) => {
                        assert(self@.cache.contains_key(width));
                        assert(page@.len() == page.lines@.len());
                        if page.lines.len() > u16::MAX as usize {
                            Some(u16::MAX)
                        } else {
                            Some(page.lines.len() as u16)
                        }
                    },
                    None => None,
                };
                if let Some(amount) = lines {
                    self.scroll_down(amount);
                }
            },
            Action::Resize(width, height) => self.resize(width, height),
            Action::LoadPage(_) => {
                return ActionResult::Ignored;
            },
        }
        ActionResult::consumed()
    }
}

} // verus!
