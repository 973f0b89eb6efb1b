use wiki_tui::style::{Color, Modifier, Modifiers, Style};

#[test]
fn patch_keeps_the_colour_of_the_base_where_the_patch_has_none() {
    let base = Style::new().fg(Color::Red);
    let bold = Style::new().add_modifier(Modifier::Bold);
    let patched = base.patch(bold);
    assert_eq!(patched.fg, Some(Color::Red));
    assert!(patched.shows(Modifier::Bold));
    assert!(!patched.shows(Modifier::Italic));
    assert_eq!(patched.sub_modifier, Modifiers::empty());
}

#[test]
fn a_modifier_added_leaves_the_removed_set() {
    let style = Style::new().remove_modifier(Modifier::Bold).add_modifier(Modifier::Bold);
    assert_eq!(style.add_modifier, Modifiers::single(Modifier::Bold));
    assert_eq!(style.sub_modifier, Modifiers::empty());
}

#[test]
fn a_modifier_removed_leaves_the_added_set() {
    let style = Style::new()
        .add_modifier(Modifier::Bold)
        .add_modifier(Modifier::Italic)
        .remove_modifier(Modifier::Italic);
    assert!(style.shows(Modifier::Bold));
    assert!(!style.shows(Modifier::Italic));
    assert_eq!(style.sub_modifier, Modifiers::single(Modifier::Italic));
}

#[test]
fn a_patch_overrides_colour_and_modifiers() {
    let base = Style::new().fg(Color::Red).add_modifier(Modifier::Bold);
    let over = Style::new()
        .fg(Color::Gray)
        .remove_modifier(Modifier::Bold)
        .add_modifier(Modifier::Underlined);
    let patched = base.patch(over);
    assert_eq!(patched.fg, Some(Color::Gray));
    assert_eq!(patched.add_modifier, Modifiers::single(Modifier::Underlined));
    assert_eq!(patched.sub_modifier, Modifiers::single(Modifier::Bold));
}

#[test]
fn sets_of_modifiers_join_and_part() {
    let bold = Modifiers::single(Modifier::Bold);
    let both = bold.insert(Modifier::Italic);
    assert!(both.contains(Modifier::Bold) && both.contains(Modifier::Italic));
    assert!(!both.contains(Modifier::Underlined));
    assert_eq!(both.difference(bold), Modifiers::single(Modifier::Italic));
    assert_eq!(bold.union(Modifiers::empty()), bold);
    assert_eq!(Style::default(), Style::new());
}
