use wiki_tui::document::{Data, Document, Node};
use wiki_tui::renderer::default_renderer::{render_document, Context, Renderer};
use wiki_tui::renderer::{RenderedDocument, Word, SENTINEL};
use wiki_tui::style::{Color, Modifier, Modifiers, Style};

fn node(data: Data, last_descendant: usize) -> Node {
    Node { data, last_descendant }
}

fn text(contents: &str, index: usize) -> Node {
    node(Data::Text { contents: contents.to_string() }, index)
}

fn intro_document() -> Document {
    Document::from_nodes(vec![
        node(Data::Section, 6),
        node(Data::Header { id: "intro".to_string() }, 2),
        text("Intro", 2),
        node(Data::Paragraph, 6),
        text("See ", 4),
        node(Data::WikiLink { page: "Target".to_string() }, 6),
        text("the target", 6),
    ])
    .unwrap()
}

fn shown(rendered: &RenderedDocument) -> Vec<String> {
    rendered
        .lines
        .iter()
        .map(|line| line.iter().map(|word| word.text()).collect::<String>())
        .collect()
}

#[test]
fn a_header_and_a_paragraph_are_set_off_by_single_empty_lines() {
    let rendered = render_document(&intro_document(), 80);
    assert_eq!(shown(&rendered), vec!["", "Intro", "", "See the target ", ""]);
}

#[test]
fn a_document_without_nodes_renders_to_no_lines() {
    let rendered = render_document(&Document::new(), 80);
    assert!(rendered.lines.is_empty());
}

#[test]
fn a_paragraph_is_broken_into_lines_of_the_width() {
    let document = Document::from_nodes(vec![
        node(Data::Paragraph, 1),
        text("To be, or not to be: that is the question", 1),
    ])
    .unwrap();
    let rendered = render_document(&document, 10);
    assert_eq!(
        shown(&rendered),
        vec!["", "To be, ", "or not to ", "be: that ", "is the ", "question", ""]
    );
}

fn word(content: &str, gap: u16) -> Word {
    Word {
        index: 7,
        content: content.to_string(),
        style: Style::new(),
        width: content.chars().count(),
        whitespace_width: gap,
        penalty_width: 0,
    }
}

fn line_text(line: &[Word]) -> String {
    line.iter().map(|word| word.text()).collect()
}

fn visible_width(line: &[Word]) -> usize {
    let total: usize = line.iter().map(|w| w.width + w.whitespace_width as usize).sum();
    total - line.last().map(|w| w.whitespace_width as usize).unwrap_or(0)
}

#[test]
fn a_disambiguation_notice_is_marked_indented_and_set_off() {
    let document = Document::from_nodes(vec![
        node(Data::Section, 4),
        node(Data::Paragraph, 2),
        text("Before the notice.", 2),
        node(Data::Disambiguation, 4),
        text("This article is about the fruit. For other uses, see Apple.", 4),
    ])
    .unwrap();
    let rendered = render_document(&document, 20);
    let lines = shown(&rendered);
    let first = lines.iter().position(|line| line.starts_with(" | ")).unwrap();
    let last = lines.iter().rposition(|line| line.starts_with(" | ")).unwrap();
    assert!(last > first);
    for line in &lines[first..=last] {
        assert!(line.starts_with(" | "), "line {:?}", line);
    }
    assert_eq!(lines[first - 1], "");
    assert_ne!(lines[first - 2], "");
    assert_eq!(lines[last + 1], "");
    assert_eq!(lines.len(), last + 2);
    let notice: Vec<&str> = lines[first..=last].iter().map(|l| l[3..].trim_end()).collect();
    assert_eq!(
        notice.join(" "),
        "This article is about the fruit. For other uses, see Apple."
    );
    for line in &rendered.lines[first..=last] {
        assert_eq!(line[0].index, SENTINEL);
        assert!(line.iter().skip(2).all(|w| w.style.shows(Modifier::Italic)));
    }
}

#[test]
fn text_after_an_inline_element_closes_up_to_it_before_punctuation() {
    let document = Document::from_nodes(vec![
        node(Data::Paragraph, 4),
        text("See ", 1),
        node(Data::Bold, 3),
        text("this", 3),
        text(", then that", 4),
    ])
    .unwrap();
    let rendered = render_document(&document, 80);
    assert_eq!(shown(&rendered), vec!["", "See this, then that", ""]);
    let line = &rendered.lines[1];
    assert!(line[1].style.shows(Modifier::Bold));
    assert!(!line[0].style.shows(Modifier::Bold));
    assert!(!line[2].style.shows(Modifier::Bold));
    assert_eq!(line[2].style.sub_modifier, Modifiers::single(Modifier::Bold));
}

#[test]
fn a_link_is_followed_by_one_space_where_no_punctuation_follows() {
    let document = Document::from_nodes(vec![
        node(Data::Paragraph, 3),
        node(Data::WikiLink { page: "A".to_string() }, 2),
        text("link", 2),
        text("next", 3),
    ])
    .unwrap();
    let rendered = render_document(&document, 80);
    assert_eq!(shown(&rendered), vec!["", "link next", ""]);
    let line = &rendered.lines[1];
    assert_eq!(line[0].index, 2);
    assert!(line[0].style.shows(Modifier::Underlined));
    assert_eq!(line[1].index, SENTINEL);
    assert_eq!(line[1].width, 0);
    assert_eq!(line[2].index, 3);
    assert!(!line[2].style.shows(Modifier::Underlined));
}

#[test]
fn the_space_after_a_link_is_taken_back_before_punctuation() {
    let document = Document::from_nodes(vec![
        node(Data::Paragraph, 3),
        node(Data::WikiLink { page: "A".to_string() }, 2),
        text("link", 2),
        text(". Next", 3),
    ])
    .unwrap();
    let rendered = render_document(&document, 80);
    assert_eq!(shown(&rendered), vec!["", "link. Next", ""]);
    assert!(rendered.lines[1].iter().all(|w| w.index != SENTINEL));
}

#[test]
fn words_carry_their_width_and_the_style_of_their_region() {
    let document = Document::from_nodes(vec![
        node(Data::Section, 6),
        node(Data::Header { id: "h".to_string() }, 2),
        text("Größe", 2),
        node(Data::Paragraph, 6),
        node(Data::RedLink, 5),
        text("nowhere", 5),
        node(Data::Reflink, 6),
    ])
    .unwrap();
    let rendered = render_document(&document, 80);
    let header = &rendered.lines[1][0];
    assert_eq!(header.content, "Größe");
    assert_eq!(header.width, 5);
    assert_eq!(header.whitespace_width, 0);
    assert_eq!(header.style.fg, Some(Color::Red));
    assert!(header.style.shows(Modifier::Bold));
    let red = &rendered.lines[3][0];
    assert_eq!(red.style.fg, Some(Color::Red));
    assert!(red.style.shows(Modifier::Italic) && red.style.shows(Modifier::Underlined));
}

#[test]
fn list_items_start_on_lines_of_their_own() {
    let document = Document::from_nodes(vec![
        node(Data::UnorderedList, 4),
        node(Data::ListItem, 2),
        text("one", 2),
        node(Data::ListItem, 4),
        text("two", 4),
    ])
    .unwrap();
    let rendered = render_document(&document, 80);
    assert_eq!(shown(&rendered), vec!["", "one", "", "two", ""]);
}

#[test]
fn terms_and_descriptions_are_set_off_like_list_items() {
    let document = Document::from_nodes(vec![
        node(Data::Paragraph, 6),
        text("before", 1),
        node(Data::DescriptionList, 6),
        node(Data::DescriptionListTerm, 4),
        text("term", 4),
        node(Data::DescriptionListDescription, 6),
        text("what it means", 6),
    ])
    .unwrap();
    let rendered = render_document(&document, 80);
    assert_eq!(shown(&rendered), vec!["", "before", "", "term", "", "what it means", ""]);
}

#[test]
fn a_list_item_after_words_on_the_line_starts_after_an_empty_line() {
    let mut renderer = Renderer::new(80);
    renderer.wrap_append(vec![word("words", 0)]);
    renderer.pre_children(&Data::ListItem, 3);
    assert!(renderer.current_line.is_empty());
    assert_eq!(renderer.rendered_lines.len(), 2);
    assert_eq!(line_text(&renderer.rendered_lines[0]), "words");
    assert!(renderer.rendered_lines[1].is_empty());
    renderer.wrap_append(vec![word("item", 0)]);
    renderer.post_children(&Data::ListItem);
    assert!(renderer.current_line.is_empty());
    assert_eq!(renderer.rendered_lines.len(), 4);
    assert!(renderer.rendered_lines[3].is_empty());
}

#[test]
fn the_last_word_keeps_its_gap_where_the_text_ends_in_any_white_space() {
    for (contents, gap) in [("one two", 0), ("one two ", 1), ("one two\t", 1), ("one two\n", 1), ("one two\u{2003}", 1)] {
        let words = Renderer::text_words(&contents.chars().collect(), 4, Style::new());
        assert_eq!(words.len(), 2);
        assert_eq!(words[0].whitespace_width, 1);
        assert_eq!(words[1].whitespace_width, gap, "for {:?}", contents);
        assert_eq!(words[1].content, "two");
        assert_eq!(words[1].width, 3);
        assert_eq!(words[1].index, 4);
        assert_eq!(words[1].penalty_width, 0);
    }
}

#[test]
fn no_line_shows_more_than_the_width_where_the_words_are_short() {
    let document = Document::from_nodes(vec![
        node(Data::Paragraph, 1),
        text("The quick brown fox jumps over the lazy dog and runs far away", 1),
    ])
    .unwrap();
    for width in [12u16, 20, 33, 80] {
        let rendered = render_document(&document, width);
        for line in &rendered.lines {
            assert!(visible_width(line) <= width as usize);
        }
        let all: Vec<String> = rendered
            .lines
            .iter()
            .flat_map(|line| line.iter().filter(|w| w.index != SENTINEL))
            .map(|w| w.content.clone())
            .collect();
        assert_eq!(
            all.join(" "),
            "The quick brown fox jumps over the lazy dog and runs far away"
        );
    }
}

#[test]
fn a_word_wider_than_the_line_is_placed_all_the_same() {
    let document = Document::from_nodes(vec![
        node(Data::Paragraph, 1),
        text("a incomprehensibilities b", 1),
    ])
    .unwrap();
    let rendered = render_document(&document, 10);
    assert_eq!(shown(&rendered), vec!["", "a ", "incomprehensibilities ", "b", ""]);
}

#[test]
fn a_batch_that_does_not_fit_the_current_line_starts_a_new_one() {
    let mut renderer = Renderer::new(10);
    renderer.wrap_append(vec![word("12345678", 1)]);
    renderer.wrap_append(vec![word("abc", 0)]);
    assert_eq!(renderer.rendered_lines.len(), 1);
    assert_eq!(line_text(&renderer.rendered_lines[0]), "12345678 ");
    assert_eq!(line_text(&renderer.current_line), "abc");
}

#[test]
fn a_batch_goes_on_where_the_current_line_ends() {
    let mut renderer = Renderer::new(10);
    renderer.wrap_append(vec![word("1234", 1)]);
    renderer.wrap_append(vec![word("abc", 1), word("defgh", 0)]);
    assert_eq!(line_text(&renderer.rendered_lines[0]), "1234 abc ");
    assert_eq!(line_text(&renderer.current_line), "defgh");
    assert_eq!(renderer.current_line[0].index, SENTINEL);
    assert_eq!(renderer.current_line[0].whitespace_width, 0);
}

#[test]
fn lines_are_placed_as_the_lengths_say() {
    let mut renderer = Renderer::new(80);
    renderer.left_padding = 2;
    renderer.prefix = Some('>');
    let words = vec![word("a", 1), word("b", 1), word("c", 1), word("d", 0)];
    renderer.place_lines(words, Some(vec![1, 2, 1]));
    assert_eq!(renderer.rendered_lines.len(), 2);
    assert_eq!(line_text(&renderer.rendered_lines[0]), "a ");
    assert_eq!(line_text(&renderer.rendered_lines[1]), "  > b c ");
    assert_eq!(line_text(&renderer.current_line), "  > d");
}

#[test]
fn lengths_that_miss_words_put_all_on_one_line() {
    let words = || vec![word("a", 1), word("b", 1), word("c", 0)];
    for fit in [None, Some(vec![]), Some(vec![1, 1]), Some(vec![2, 2]), Some(vec![0, 3])] {
        let mut renderer = Renderer::new(80);
        renderer.place_lines(words(), fit);
        assert!(renderer.rendered_lines.is_empty());
        assert_eq!(line_text(&renderer.current_line), "a b c");
    }
}

#[test]
fn the_first_line_of_a_prefixed_block_has_room_for_the_prefix() {
    let mut renderer = Renderer::new(10);
    renderer.left_padding = 1;
    renderer.prefix = Some('|');
    assert_eq!(renderer.start_batch(3), 7);
    assert_eq!(line_text(&renderer.current_line), " | ");
    assert_eq!(renderer.current_line[0].width, 1);
    assert_eq!(renderer.start_batch(3), 8);
    assert_eq!(renderer.current_line.len(), 1);
    let mut narrow = Renderer::new(2);
    narrow.left_padding = 1;
    narrow.prefix = Some('|');
    assert_eq!(narrow.start_batch(1), 0);
}

#[test]
fn empty_lines_are_not_doubled() {
    let mut renderer = Renderer::new(10);
    assert!(!renderer.is_last_empty());
    renderer.ensure_empty_line();
    renderer.ensure_empty_line();
    assert_eq!(renderer.rendered_lines.len(), 1);
    renderer.add_empty_line();
    assert_eq!(renderer.rendered_lines.len(), 2);
    renderer.clear_line();
    assert_eq!(renderer.rendered_lines.len(), 2);
    renderer.wrap_append(vec![word("x", 0)]);
    assert!(!renderer.is_last_empty());
    renderer.ensure_empty_line();
    assert_eq!(renderer.rendered_lines.len(), 4);
    assert!(renderer.is_last_empty());
}

#[test]
fn space_is_added_once_at_the_end_of_a_line() {
    let mut renderer = Renderer::new(10);
    renderer.wrap_append(vec![word("x", 0)]);
    assert!(!renderer.is_last_whitespace());
    renderer.add_whitespace();
    renderer.add_whitespace();
    assert!(renderer.is_last_whitespace());
    assert_eq!(renderer.current_line.len(), 2);
    assert_eq!(Renderer::n_whitespace(3).text(), "   ");
    assert_eq!(renderer.room(), Some(8));
}

#[test]
fn regions_nest_and_modifiers_outlive_them() {
    let mut renderer = Renderer::new(10);
    assert_eq!(renderer.context(), Context::Normal);
    renderer.add_modifier(Modifier::Bold);
    renderer.push_context(Context::Reflink);
    renderer.push_context(Context::Header);
    assert_eq!(renderer.current_style().fg, Some(Color::Red));
    renderer.pop_context();
    assert_eq!(renderer.context(), Context::Reflink);
    assert_eq!(renderer.current_style().fg, Some(Color::Gray));
    assert!(renderer.current_style().shows(Modifier::Bold));
    renderer.pop_context();
    renderer.pop_context();
    assert_eq!(renderer.context(), Context::Normal);
    assert_eq!(renderer.current_style().fg, None);
    renderer.remove_modifier(Modifier::Bold);
    assert!(!renderer.current_style().shows(Modifier::Bold));
}

#[test]
fn a_word_knows_the_node_it_came_from() {
    let document = intro_document();
    assert_eq!(word("x", 0).node(&document), None);
    let mut inside = word("x", 0);
    inside.index = 6;
    assert_eq!(inside.node(&document), Some(6));
    assert_eq!(Renderer::n_whitespace(1).node(&document), None);
}

#[test]
fn a_line_is_searched_for_the_words_of_a_range() {
    let document = intro_document();
    let rendered = render_document(&document, 80);
    assert_eq!(rendered.find_line(&document, 1, 2, 0, rendered.lines.len()), Some(1));
    assert_eq!(rendered.find_line(&document, 5, 6, 0, rendered.lines.len()), Some(3));
    assert_eq!(rendered.find_line(&document, 5, 6, 0, 3), None);
    assert_eq!(rendered.find_line(&document, 5, 6, 4, rendered.lines.len()), None);
    assert_eq!(rendered.find_line(&document, 0, 0, 0, rendered.lines.len()), None);
    assert_eq!(rendered.find_line(&document, 1, 2, 0, rendered.lines.len() + 1), None);
    assert!(rendered.line_touches(&document, 3, 4, 4));
    assert!(!rendered.line_touches(&document, 3, 1, 2));
}

#[test]
fn the_breaker_may_let_a_line_run_over_by_one_column() {
    let long = "x".repeat(50);
    let document = Document::from_nodes(vec![
        node(Data::Paragraph, 1),
        text(&format!("foo {}", long), 1),
    ])
    .unwrap();
    let fitting = render_document(&document, 54);
    assert_eq!(shown(&fitting), vec!["".to_string(), format!("foo {}", long), "".to_string()]);
    let over = render_document(&document, 53);
    assert_eq!(shown(&over), vec!["".to_string(), format!("foo {}", long), "".to_string()]);
    let apart = render_document(&document, 52);
    assert_eq!(shown(&apart), vec!["".to_string(), "foo ".to_string(), long.clone(), "".to_string()]);
}

#[test]
fn later_lines_of_a_prefixed_block_are_broken_for_the_full_width() {
    let document = Document::from_nodes(vec![
        node(Data::Disambiguation, 1),
        text("aaaa bbbb cccc dddd eeee ffff", 1),
    ])
    .unwrap();
    let rendered = render_document(&document, 9);
    let widths: Vec<usize> = rendered.lines.iter().map(|line| visible_width(line)).collect();
    assert_eq!(shown(&rendered)[1], " | aaaa ");
    assert!(widths.iter().any(|width| *width > 9));
}

#[test]
fn a_batch_of_one_word_is_not_broken() {
    for width in [1u16, 4, 80] {
        let mut renderer = Renderer::new(width);
        renderer.left_padding = 1;
        renderer.prefix = Some('|');
        renderer.wrap_append(vec![word("abcdefgh", 1)]);
        assert!(renderer.rendered_lines.is_empty());
        assert_eq!(line_text(&renderer.current_line), " | abcdefgh ");
        renderer.wrap_append(vec![word("abcdefgh", 0)]);
        let words: usize = renderer
            .rendered_lines
            .iter()
            .chain([&renderer.current_line])
            .map(|line| line.iter().filter(|w| w.index != SENTINEL).count())
            .sum();
        assert_eq!(words, 2);
    }
}

#[test]
fn a_batch_keeps_every_word_once_and_in_order() {
    let contents = ["one", "incomprehensibilities", "two", "three", "x", "four"];
    for width in [1u16, 5, 9, 12, 30, 80] {
        let mut renderer = Renderer::new(width);
        renderer.left_padding = 2;
        renderer.prefix = Some('|');
        renderer.wrap_append(vec![word("zero", 1)]);
        renderer.wrap_append(contents.iter().map(|c| word(c, 1)).collect());
        let kept: Vec<String> = renderer
            .rendered_lines
            .iter()
            .chain([&renderer.current_line])
            .flat_map(|line| line.iter())
            .filter(|w| w.index != SENTINEL)
            .map(|w| w.content.clone())
            .collect();
        let mut expected = vec!["zero".to_string()];
        expected.extend(contents.iter().map(|c| c.to_string()));
        assert_eq!(kept, expected);
    }
}
