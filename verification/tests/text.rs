use wiki_tui::renderer::text::{chars_of, split_whitespace};

fn words(text: &str) -> Vec<String> {
    split_whitespace(&chars_of(text))
        .iter()
        .map(|word| word.iter().collect())
        .collect()
}

#[test]
fn the_characters_of_a_text_come_in_order() {
    assert_eq!(chars_of("añb"), vec!['a', 'ñ', 'b']);
    assert!(chars_of("").is_empty());
}

#[test]
fn runs_of_white_space_separate_words() {
    assert_eq!(words("  to be,\tor\n not  "), vec!["to", "be,", "or", "not"]);
}

#[test]
fn white_space_beyond_ascii_separates_words_too() {
    assert_eq!(words("one\u{2003}two\u{a0}three"), vec!["one", "two", "three"]);
}

#[test]
fn a_text_of_white_space_has_no_words() {
    assert!(words(" \t ").is_empty());
    assert!(words("").is_empty());
}

#[test]
fn the_white_space_of_the_standard_library_is_the_listed_code_points() {
    let listed = |c: char| {
        let n = c as u32;
        (0x09..=0x0D).contains(&n)
            || [0x20, 0x85, 0xA0, 0x1680, 0x2028, 0x2029, 0x202F, 0x205F, 0x3000].contains(&n)
            || (0x2000..=0x200A).contains(&n)
    };
    for n in 0..=0x10FFFFu32 {
        if let Some(c) = char::from_u32(n) {
            let text: String = ['a', c, 'b'].iter().collect();
            let parts = split_whitespace(&chars_of(&text)).len();
            assert_eq!(parts == 2, listed(c), "code point {:x}", n);
        }
    }
}

#[test]
fn the_words_of_a_text_joined_are_its_characters_but_the_white_space() {
    for text in ["", " ", "a", " a", "a ", "ab  cd\te\u{2003}f\n", "\u{a0}x\u{3000}"] {
        let joined: String = words(text).concat();
        let kept: String = text.chars().filter(|c| !c.is_whitespace()).collect();
        assert_eq!(joined, kept);
        assert!(words(text).iter().all(|w| !w.is_empty()));
    }
}

#[test]
fn a_text_without_white_space_is_one_word() {
    assert_eq!(words("word"), vec!["word"]);
    assert_eq!(words("a\u{200b}b"), vec!["a\u{200b}b"]);
}
