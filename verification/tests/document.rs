use wiki_tui::document::{Data, Document, Node};

fn node(data: Data, last_descendant: usize) -> Node {
    Node { data, last_descendant }
}

fn sample() -> Vec<Node> {
    vec![
        node(Data::Section, 5),
        node(Data::Paragraph, 3),
        node(Data::WikiLink { page: "A".to_string() }, 3),
        node(Data::Text { contents: "a".to_string() }, 3),
        node(Data::Header { id: "h".to_string() }, 5),
        node(Data::Text { contents: "H".to_string() }, 5),
    ]
}

#[test]
fn nested_ranges_make_a_document() {
    let document = Document::from_nodes(sample()).unwrap();
    assert_eq!(document.len(), 6);
    assert!(!document.is_empty());
    assert_eq!(document.last_descendant(1), 3);
    assert!(matches!(document.data(4), Data::Header { .. }));
    assert_eq!(document.nth(5).unwrap().last_descendant, 5);
    assert!(document.nth(6).is_none());
}

#[test]
fn a_range_that_ends_before_its_node_is_refused() {
    let nodes = vec![node(Data::Section, 1), node(Data::Paragraph, 0)];
    assert!(Document::from_nodes(nodes).is_none());
}

#[test]
fn a_range_that_leaves_the_document_is_refused() {
    let nodes = vec![node(Data::Section, 2), node(Data::Paragraph, 1)];
    assert!(Document::from_nodes(nodes).is_none());
}

#[test]
fn ranges_that_overlap_without_nesting_are_refused() {
    let nodes = vec![
        node(Data::Section, 3),
        node(Data::Paragraph, 2),
        node(Data::Paragraph, 3),
        node(Data::Paragraph, 3),
    ];
    assert!(Document::from_nodes(nodes).is_none());
}

#[test]
fn the_parent_is_the_nearest_node_whose_range_holds_the_child() {
    let document = Document::from_nodes(sample()).unwrap();
    assert_eq!(document.parent(0), None);
    assert_eq!(document.parent(1), Some(0));
    assert_eq!(document.parent(3), Some(2));
    assert_eq!(document.parent(4), Some(0));
    assert_eq!(document.parent(5), Some(4));
}

#[test]
fn every_descendant_lies_in_the_range_of_its_ancestors() {
    let document = Document::from_nodes(sample()).unwrap();
    for child in 1..document.len() {
        let mut ancestor = document.parent(child);
        while let Some(a) = ancestor {
            assert!(a < child);
            assert!(child <= document.last_descendant(a));
            ancestor = document.parent(a);
        }
    }
}

#[test]
fn links_are_found_from_either_end_of_a_range() {
    let mut nodes = sample();
    nodes[0].last_descendant = 6;
    nodes.push(node(Data::RedLink, 6));
    let document = Document::from_nodes(nodes).unwrap();
    assert_eq!(document.first_link(1, 6), Some(2));
    assert_eq!(document.last_link(1, 6), Some(6));
    assert_eq!(document.first_link(3, 5), None);
    assert_eq!(document.last_link(1, 5), Some(2));
    assert_eq!(document.first_link(4, 3), None);
}

#[test]
fn the_last_header_with_an_identifier_is_found() {
    let mut nodes = sample();
    nodes[0].last_descendant = 6;
    nodes.push(node(Data::Header { id: "h".to_string() }, 6));
    let document = Document::from_nodes(nodes).unwrap();
    assert_eq!(document.last_header(&"h".to_string(), 1, 6), Some(6));
    assert_eq!(document.last_header(&"h".to_string(), 1, 5), Some(4));
    assert_eq!(document.last_header(&"other".to_string(), 1, 6), None);
}

#[test]
fn the_four_kinds_of_link_are_links() {
    assert!(Data::WikiLink { page: "A".to_string() }.is_link());
    assert!(Data::RedLink.is_link());
    assert!(Data::MediaLink.is_link());
    assert!(Data::ExternalLink.is_link());
    assert!(!Data::Reflink.is_link());
    assert!(!Data::Text { contents: "a".to_string() }.is_link());
}
