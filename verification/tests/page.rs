use wiki_tui::action::{Action, ActionResult, PageAction};
use wiki_tui::components::page::{PageComponent, Renderer, Span, Viewport};
use wiki_tui::document::{Data, Document, Node};
use wiki_tui::event::{KeyCode, KeyEvent};
use wiki_tui::page::{Page, Section};
use wiki_tui::renderer::default_renderer::render_document;
use wiki_tui::style::{Color, Modifier};

fn node(data: Data, last_descendant: usize) -> Node {
    Node { data, last_descendant }
}

fn text(contents: &str, index: usize) -> Node {
    node(Data::Text { contents: contents.to_string() }, index)
}

fn link(page: &str, last_descendant: usize) -> Node {
    node(Data::WikiLink { page: page.to_string() }, last_descendant)
}

fn intro_document() -> Document {
    Document::from_nodes(vec![
        node(Data::Section, 6),
        node(Data::Header { id: "intro".to_string() }, 2),
        text("Intro", 2),
        node(Data::Paragraph, 6),
        text("See ", 4),
        link("Target", 6),
        text("the target", 6),
    ])
    .unwrap()
}

fn links_document() -> Document {
    Document::from_nodes(vec![
        node(Data::Section, 10),
        node(Data::Paragraph, 10),
        text("Start ", 2),
        link("First", 4),
        text("one", 4),
        node(Data::RedLink, 6),
        text("two", 6),
        node(Data::ExternalLink, 8),
        text("three", 8),
        link("Last", 10),
        text("four", 10),
    ])
    .unwrap()
}

fn tall_document() -> Document {
    let mut nodes = vec![node(Data::Section, 40)];
    for k in 0..20 {
        let at = 1 + 2 * k;
        nodes.push(node(Data::Paragraph, at + 1));
        nodes.push(text(&format!("paragraph {}", k), at + 1));
    }
    Document::from_nodes(nodes).unwrap()
}

fn sections() -> Vec<Section> {
    ["Intro", "History", "Notes"]
        .iter()
        .enumerate()
        .map(|(k, name)| Section {
            number: format!("{}", k + 1),
            text: name.to_string(),
            anchor: name.to_lowercase(),
        })
        .collect()
}

fn page(content: Document, sections: Option<Vec<Section>>) -> Page {
    Page { title: "Title".to_string(), content, sections }
}

fn component(content: Document) -> PageComponent {
    PageComponent::new(page(content, Some(sections())))
}

fn texts(line: &[Span]) -> String {
    line.iter().map(|span| span.content.as_str()).collect()
}

fn page_action(action: PageAction) -> ActionResult {
    ActionResult::Consumed(Some(Action::Page(action)))
}

#[test]
fn a_new_component_starts_at_the_top_with_nothing_rendered() {
    let c = component(intro_document());
    assert_eq!(c.viewport(), Viewport { y: 0, width: 0, height: 0 });
    assert_eq!(c.selected(), (0, 0));
    assert!(!c.is_contents());
    assert_eq!(c.renderer(), Renderer::Default);
    assert_eq!(c.contents_state().selected, Some(0));
    assert_eq!(c.contents_state().max_idx_section, 3);
    assert!(!c.is_cached(80));
    assert_eq!(c.page().title, "Title");
    assert_eq!(Renderer::default().next(), Renderer::Default);
}

#[test]
fn the_first_link_is_selected_activated_and_its_header_jumped_to() {
    let mut c = component(intro_document());
    c.render(80, 10);
    c.select_first();
    assert_eq!(c.selected(), (5, 6));
    assert_eq!(
        c.open_link(),
        ActionResult::Consumed(Some(Action::LoadPage("Target".to_string())))
    );
    c.scroll_down(2);
    c.select_header("intro".to_string());
    assert_eq!(c.viewport().y, 1);
    let rendered = render_document(&c.page().content, 80);
    assert_eq!(rendered.lines[1][0].content, "Intro");
}

#[test]
fn a_resize_renders_anew_and_resets_the_selection() {
    let mut c = component(intro_document());
    c.render(80, 10);
    c.select_first();
    assert!(c.is_cached(80));
    assert_eq!(c.selected(), (5, 6));
    c.resize(40, 10);
    assert!(!c.is_cached(80));
    assert!(!c.is_cached(40));
    assert_eq!(c.selected(), (0, 0));
    assert_eq!(c.viewport(), Viewport { y: 0, width: 40, height: 10 });
    c.render(40, 10);
    assert!(c.is_cached(40));
    assert!(!c.is_cached(80));
}

#[test]
fn renders_of_two_widths_are_kept_side_by_side() {
    let mut c = component(intro_document());
    let wide = c.render(80, 10);
    let narrow = c.render(12, 10);
    assert!(c.is_cached(80) && c.is_cached(12));
    assert_ne!(wide.lines, narrow.lines);
    let again = c.render(80, 10);
    assert_eq!(again, wide);
    assert!(c.is_cached(12));
}

#[test]
fn a_frame_made_twice_is_the_same() {
    let mut c = component(links_document());
    let first = c.render(14, 6);
    let second = c.render(14, 6);
    assert_eq!(first, second);
    let fresh = render_document(&links_document(), 14);
    assert_eq!(first.scroll_length, fresh.lines.len().saturating_sub(6));
}

#[test]
fn next_and_previous_walk_the_links_and_stop_at_the_ends() {
    let mut c = component(links_document());
    c.select_next();
    assert_eq!(c.selected(), (3, 4));
    c.select_next();
    assert_eq!(c.selected(), (5, 6));
    c.select_next();
    c.select_next();
    assert_eq!(c.selected(), (9, 10));
    for _ in 0..3 {
        c.select_next();
        assert_eq!(c.selected(), (9, 10));
    }
    c.select_prev();
    assert_eq!(c.selected(), (7, 8));
    c.select_first();
    assert_eq!(c.selected(), (3, 4));
    for _ in 0..3 {
        c.select_prev();
        assert_eq!(c.selected(), (3, 4));
    }
    c.select_last();
    assert_eq!(c.selected(), (9, 10));
    c.select_next();
    assert_eq!(c.selected(), (9, 10));
}

#[test]
fn the_last_link_is_the_last_in_the_document_even_inside_another() {
    let document = Document::from_nodes(vec![
        node(Data::Paragraph, 3),
        link("Outer", 3),
        link("Inner", 3),
        text("both", 3),
    ])
    .unwrap();
    let mut c = component(document);
    c.select_first();
    assert_eq!(c.selected(), (1, 3));
    c.select_last();
    assert_eq!(c.selected(), (2, 3));
}

#[test]
fn a_page_without_links_or_nodes_keeps_the_default_selection() {
    let plain = Document::from_nodes(vec![node(Data::Paragraph, 1), text("no links", 1)]).unwrap();
    for document in [plain, Document::new()] {
        let mut c = component(document);
        c.select_first();
        c.select_next();
        c.select_prev();
        c.select_last();
        c.select_top();
        c.select_bottom();
        assert_eq!(c.selected(), (0, 0));
        assert_eq!(c.open_link(), ActionResult::Consumed(None));
        c.select_header("missing".to_string());
        assert_eq!(c.viewport().y, 0);
    }
}

#[test]
fn only_an_internal_link_is_activated() {
    let mut c = component(links_document());
    c.select_first();
    assert_eq!(
        c.open_link(),
        ActionResult::Consumed(Some(Action::LoadPage("First".to_string())))
    );
    c.select_next();
    assert_eq!(c.selected(), (5, 6));
    assert_eq!(c.open_link(), ActionResult::Consumed(None));
}

#[test]
fn scrolling_stays_within_the_render() {
    let mut c = component(tall_document());
    let frame = c.render(40, 10);
    let lines = render_document(&tall_document(), 40).lines.len();
    assert_eq!(lines, 41);
    assert_eq!(frame.scroll_length, 31);
    c.scroll_down(5);
    assert_eq!(c.viewport().y, 5);
    c.scroll_down(100);
    assert_eq!(c.viewport().y, 31);
    c.scroll_down(1);
    assert_eq!(c.viewport().y, 31);
    c.scroll_up(30);
    assert_eq!(c.viewport().y, 1);
    c.scroll_up(30);
    assert_eq!(c.viewport().y, 0);
    c.scroll_down(u16::MAX);
    assert_eq!(c.viewport().y, 31);
}

#[test]
fn scrolling_without_a_render_is_bound_by_the_number_range_only() {
    let mut c = component(tall_document());
    c.scroll_down(7);
    assert_eq!(c.viewport().y, 7);
    c.scroll_down(u16::MAX);
    assert_eq!(c.viewport().y, u16::MAX);
    c.scroll_up(u16::MAX);
    assert_eq!(c.viewport().y, 0);
}

#[test]
fn a_render_shorter_than_the_viewport_scrolls_to_the_top() {
    let mut c = component(intro_document());
    c.render(80, 10);
    c.scroll_down(3);
    assert_eq!(c.viewport().y, 0);
}

#[test]
fn commands_scroll_by_lines_halves_and_to_the_ends() {
    let mut c = component(tall_document());
    c.render(40, 11);
    assert_eq!(c.update(Action::ScrollHalfDown), ActionResult::Consumed(None));
    assert_eq!(c.viewport().y, 5);
    c.update(Action::ScrollDown(3));
    assert_eq!(c.viewport().y, 8);
    c.update(Action::ScrollHalfUp);
    assert_eq!(c.viewport().y, 3);
    c.update(Action::ScrollUp(1));
    assert_eq!(c.viewport().y, 2);
    c.update(Action::ScrollToBottom);
    assert_eq!(c.viewport().y, 30);
    c.update(Action::ScrollToTop);
    assert_eq!(c.viewport().y, 0);
    c.update(Action::Resize(20, 5));
    assert_eq!(c.viewport(), Viewport { y: 0, width: 20, height: 5 });
    assert!(!c.is_cached(40));
    c.update(Action::ScrollToBottom);
    assert_eq!(c.viewport().y, 0);
}

#[test]
fn commands_for_the_page_move_selection_focus_and_viewport() {
    let mut c = component(links_document());
    c.render(80, 10);
    assert_eq!(
        c.update(Action::Page(PageAction::SelectLastLink)),
        ActionResult::Consumed(None)
    );
    assert_eq!(c.selected(), (9, 10));
    c.update(Action::Page(PageAction::SelectPrevLink));
    assert_eq!(c.selected(), (7, 8));
    c.update(Action::Page(PageAction::SelectFirstLink));
    assert_eq!(c.selected(), (3, 4));
    c.update(Action::Page(PageAction::SelectNextLink));
    assert_eq!(c.selected(), (5, 6));
    c.update(Action::Page(PageAction::SelectTopLink));
    assert_eq!(c.selected(), (3, 4));
    c.update(Action::Page(PageAction::SelectBottomLink));
    assert_eq!(c.selected(), (9, 10));
    c.update(Action::Page(PageAction::ToggleContents));
    assert!(c.is_contents());
    c.update(Action::Page(PageAction::ToggleContents));
    assert!(!c.is_contents());
    c.select_last();
    c.viewport();
    c.update(Action::Page(PageAction::SwitchRenderer(Renderer::Default)));
    assert!(!c.is_cached(80));
    assert_eq!(c.selected(), (0, 0));
    assert_eq!(c.renderer(), Renderer::Default);
    c.scroll_down(4);
    c.update(Action::Page(PageAction::GoToHeader("Content_Top".to_string())));
    assert_eq!(c.viewport().y, 0);
}

#[test]
fn a_command_for_another_component_is_ignored() {
    let mut c = component(intro_document());
    c.render(80, 10);
    c.select_first();
    assert_eq!(c.update(Action::LoadPage("Other".to_string())), ActionResult::Ignored);
    assert_eq!(c.selected(), (5, 6));
    assert!(c.is_cached(80));
}

#[test]
fn the_links_in_view_are_those_with_words_on_the_lines_shown() {
    let document = Document::from_nodes(vec![
        node(Data::Section, 12),
        node(Data::Paragraph, 3),
        link("A", 3),
        text("alpha", 3),
        node(Data::Paragraph, 6),
        link("B", 6),
        text("beta", 6),
        node(Data::Paragraph, 9),
        link("C", 9),
        text("gamma", 9),
        node(Data::Paragraph, 12),
        link("D", 12),
        text("delta", 12),
    ])
    .unwrap();
    let mut c = component(document);
    c.render(40, 4);
    c.scroll_down(2);
    assert_eq!(c.viewport().y, 2);
    c.select_top();
    assert_eq!(c.selected(), (5, 6));
    c.select_bottom();
    assert_eq!(c.selected(), (8, 9));
    c.scroll_up(2);
    c.select_bottom();
    assert_eq!(c.selected(), (5, 6));
    c.select_top();
    assert_eq!(c.selected(), (2, 3));
}

#[test]
fn a_jump_leads_to_the_last_header_with_the_anchor() {
    let document = Document::from_nodes(vec![
        node(Data::Section, 8),
        node(Data::Header { id: "same".to_string() }, 2),
        text("One", 2),
        node(Data::Paragraph, 4),
        text("body", 4),
        node(Data::Header { id: "same".to_string() }, 6),
        text("Two", 6),
        node(Data::Paragraph, 8),
        text("more", 8),
    ])
    .unwrap();
    let mut c = component(document);
    c.render(40, 2);
    c.select_header("same".to_string());
    assert_eq!(c.viewport().y, 5);
    c.select_header("none".to_string());
    assert_eq!(c.viewport().y, 5);
    c.select_header("Content_Top".to_string());
    assert_eq!(c.viewport().y, 0);
}

#[test]
fn a_jump_works_without_a_kept_render() {
    let mut c = component(intro_document());
    c.resize(80, 1);
    c.select_header("intro".to_string());
    assert_eq!(c.viewport().y, 1);
    assert!(!c.is_cached(80));
}

#[test]
fn the_frame_shows_the_title_at_the_top_and_underlines_the_selection() {
    let mut c = component(intro_document());
    c.select_first();
    let frame = c.render(80, 10);
    let lines: Vec<String> = frame.lines.iter().map(|l| texts(l)).collect();
    assert_eq!(lines, vec!["Title", "", "Intro", "", "See the target "]);
    assert_eq!(frame.lines[0][0].style.fg, Some(Color::Red));
    assert!(frame.lines[0][0].style.shows(Modifier::Bold));
    let body = &frame.lines[4];
    assert!(!body[0].style.shows(Modifier::Underlined));
    assert!(body[1].style.shows(Modifier::Underlined));
    assert!(body[2].style.shows(Modifier::Underlined));
    assert_eq!(frame.scroll_position, 0);
    assert_eq!(frame.scroll_length, 0);
}

#[test]
fn the_frame_starts_at_the_top_line_of_the_viewport() {
    let mut c = component(tall_document());
    c.render(40, 3);
    c.scroll_down(4);
    let frame = c.render(40, 3);
    let lines: Vec<String> = frame.lines.iter().map(|l| texts(l)).collect();
    assert_eq!(lines, vec!["", "paragraph 2", "", "paragraph 3", "", "paragraph 4", ""]);
    assert_eq!(frame.scroll_position, 4);
    assert_eq!(frame.scroll_length, 38);
}

#[test]
fn only_words_of_the_selected_range_are_underlined_on_top_of_their_style() {
    let document = Document::from_nodes(vec![
        node(Data::Paragraph, 4),
        link("Outer", 4),
        link("Inner", 3),
        text("in", 3),
        text("out", 4),
    ])
    .unwrap();
    let own = render_document(&document, 80);
    let out_word = own.lines[1].iter().find(|w| w.content == "out").unwrap();
    assert!(!out_word.style.shows(Modifier::Underlined));
    let mut c = component(document);
    c.select_first();
    assert_eq!(c.selected(), (1, 4));
    let frame = c.render(80, 10);
    let out = frame.lines[2].iter().find(|span| span.content.starts_with("out")).unwrap();
    assert!(out.style.shows(Modifier::Underlined));
    assert_eq!(out.style.fg, out_word.style.fg);
    c.select_last();
    assert_eq!(c.selected(), (2, 3));
    let frame = c.render(80, 10);
    let out = frame.lines[2].iter().find(|span| span.content.starts_with("out")).unwrap();
    assert_eq!(out.style, out_word.style);
    let space = frame.lines[2].iter().find(|span| span.content == " ").unwrap();
    assert!(!space.style.shows(Modifier::Underlined));
}

#[test]
fn the_outline_cursor_goes_round() {
    let mut c = component(intro_document());
    c.update(Action::Page(PageAction::ToggleContents));
    c.scroll_down(1);
    assert_eq!(c.contents_state().selected, Some(1));
    c.scroll_down(1);
    c.scroll_down(1);
    assert_eq!(c.contents_state().selected, Some(0));
    c.scroll_up(1);
    assert_eq!(c.contents_state().selected, Some(2));
    c.scroll_up(1);
    assert_eq!(c.contents_state().selected, Some(1));
    assert_eq!(c.viewport().y, 0);
    assert_eq!(c.selected_header().unwrap().anchor, "history");
}

#[test]
fn a_page_without_an_outline_has_no_section_under_the_cursor() {
    let mut c = PageComponent::new(page(intro_document(), None));
    c.update(Action::Page(PageAction::ToggleContents));
    c.scroll_down(1);
    assert_eq!(c.contents_state().selected, Some(0));
    c.scroll_up(1);
    assert_eq!(c.contents_state().selected, Some(0));
    assert!(c.selected_header().is_none());
    let panel = c.render_contents();
    assert!(panel.focused);
    assert!(panel.items.is_none());
    assert_eq!(
        c.handle_key_events(KeyEvent::plain(KeyCode::Enter)),
        ActionResult::Ignored
    );
}

#[test]
fn the_outline_panel_lists_number_and_text_of_each_section() {
    let c = component(intro_document());
    let panel = c.render_contents();
    assert!(!panel.focused);
    assert_eq!(panel.selected, Some(0));
    assert_eq!(
        panel.items,
        Some(vec!["1 Intro".to_string(), "2 History".to_string(), "3 Notes".to_string()])
    );
}

#[test]
fn keys_on_the_page_lead_to_commands() {
    let mut c = component(intro_document());
    c.select_first();
    let keys = [
        (KeyEvent::with_control(KeyCode::Char('r')), PageAction::SwitchRenderer(Renderer::Default)),
        (KeyEvent::plain(KeyCode::Char('t')), PageAction::ToggleContents),
        (KeyEvent::with_shift(KeyCode::Left), PageAction::SelectFirstLink),
        (KeyEvent::with_shift(KeyCode::Right), PageAction::SelectLastLink),
        (KeyEvent::with_shift(KeyCode::Up), PageAction::SelectTopLink),
        (KeyEvent::with_shift(KeyCode::Down), PageAction::SelectBottomLink),
        (KeyEvent::plain(KeyCode::Left), PageAction::SelectPrevLink),
        (KeyEvent::plain(KeyCode::Right), PageAction::SelectNextLink),
    ];
    for (key, action) in keys {
        assert_eq!(c.handle_key_events(key), page_action(action));
    }
    assert_eq!(
        c.handle_key_events(KeyEvent::plain(KeyCode::Enter)),
        ActionResult::Consumed(Some(Action::LoadPage("Target".to_string())))
    );
    for key in [
        KeyEvent::plain(KeyCode::Char('r')),
        KeyEvent::plain(KeyCode::Up),
        KeyEvent::plain(KeyCode::Down),
        KeyEvent::plain(KeyCode::Other),
        KeyEvent::plain(KeyCode::Char('x')),
    ] {
        assert_eq!(c.handle_key_events(key), ActionResult::Ignored);
    }
}

#[test]
fn keys_in_the_outline_give_the_focus_back_or_jump() {
    let mut c = component(intro_document());
    c.update(Action::Page(PageAction::ToggleContents));
    c.scroll_down(1);
    assert_eq!(
        c.handle_key_events(KeyEvent::plain(KeyCode::Char('t'))),
        page_action(PageAction::ToggleContents)
    );
    assert_eq!(
        c.handle_key_events(KeyEvent::plain(KeyCode::Enter)),
        page_action(PageAction::GoToHeader("history".to_string()))
    );
    for key in [
        KeyEvent::plain(KeyCode::Left),
        KeyEvent::with_control(KeyCode::Char('r')),
        KeyEvent::plain(KeyCode::Char('x')),
    ] {
        assert_eq!(c.handle_key_events(key), ActionResult::Ignored);
    }
}

#[test]
fn the_keymap_lists_the_keys_for_renderer_and_links() {
    let c = component(intro_document());
    let keymap = c.keymap();
    assert_eq!(keymap.len(), 7);
    assert_eq!(
        keymap[0],
        (
            KeyEvent { code: KeyCode::Char('r'), shift: false, control: true },
            page_action(PageAction::SwitchRenderer(Renderer::Default))
        )
    );
    assert_eq!(keymap[1], (KeyEvent::with_shift(KeyCode::Left), page_action(PageAction::SelectFirstLink)));
    assert_eq!(keymap[2], (KeyEvent::plain(KeyCode::Left), page_action(PageAction::SelectPrevLink)));
    assert_eq!(keymap[3], (KeyEvent::with_shift(KeyCode::Right), page_action(PageAction::SelectLastLink)));
    assert_eq!(keymap[4], (KeyEvent::plain(KeyCode::Right), page_action(PageAction::SelectNextLink)));
    assert_eq!(keymap[5], (KeyEvent::with_shift(KeyCode::Up), page_action(PageAction::SelectTopLink)));
    assert_eq!(keymap[6], (KeyEvent::with_shift(KeyCode::Down), page_action(PageAction::SelectBottomLink)));
    for (key, result) in keymap {
        assert_eq!(c.handle_key_events(key), result);
    }
}

#[test]
fn results_are_made_from_commands() {
    assert_eq!(ActionResult::consumed(), ActionResult::Consumed(None));
    assert_eq!(
        ActionResult::from_action(Action::ScrollToTop),
        ActionResult::Consumed(Some(Action::ScrollToTop))
    );
    assert_eq!(Viewport { y: 65000, width: 1, height: 1000 }.bottom(), u16::MAX);
    assert_eq!(Viewport { y: 3, width: 1, height: 4 }.bottom(), 7);
    assert_eq!(Viewport { y: 3, width: 1, height: 4 }.top(), 3);
}

#[test]
fn a_switch_of_renderer_starts_over_at_the_top() {
    let mut c = component(tall_document());
    c.render(40, 10);
    c.scroll_down(7);
    assert_eq!(c.viewport().y, 7);
    c.switch_renderer(Renderer::Default.next());
    assert_eq!(c.viewport(), Viewport { y: 0, width: 40, height: 10 });
    assert!(!c.is_cached(40));
    c.scroll_down(7);
    c.flush_cache();
    assert_eq!(c.viewport().y, 7);
}
