use tunneld::text::{
    chars_of, find_text, first_index, last_index, pieces, same_ignoring_case, same_text, text_of,
    to_ascii_lower, trimmed, without_end,
};

fn cs(s: &str) -> Vec<char> {
    chars_of(s)
}

#[test]
fn characters_and_back() {
    assert_eq!(chars_of("aö€"), vec!['a', 'ö', '€']);
    assert_eq!(text_of(&['a', 'ö', '€']), "aö€");
}

#[test]
fn comparison() {
    assert!(same_text("ab", "ab"));
    assert!(!same_text("ab", "aB"));
    assert!(same_ignoring_case("aB", "Ab"));
    assert!(!same_ignoring_case("ö", "Ö"));
    assert_eq!(text_of(&to_ascii_lower("AZaz@[Ö")), "azaz@[Ö");
}

#[test]
fn positions() {
    assert_eq!(first_index(&cs("a:b:c"), ':', 0), 1);
    assert_eq!(first_index(&cs("a:b:c"), ':', 2), 3);
    assert_eq!(first_index(&cs("abc"), ':', 0), 3);
    assert_eq!(last_index(&cs("a:b:c"), ':'), Some(3));
    assert_eq!(last_index(&cs("abc"), ':'), None);
    assert_eq!(find_text(&cs("a://b"), &cs("://")), Some(1));
    assert_eq!(find_text(&cs("a:/b"), &cs("://")), None);
    assert_eq!(find_text(&cs("::///"), &cs("://")), Some(1));
}

#[test]
fn pieces_of_a_text() {
    let split = |s: &str| -> Vec<String> {
        pieces(&cs(s), ',').iter().map(|p| text_of(p)).collect()
    };
    for s in ["", ",", "a", "a,b", ",a,,b,"] {
        let expected: Vec<String> = s.split(',').map(|p| p.to_string()).collect();
        assert_eq!(split(s), expected);
    }
}

#[test]
fn white_space_is_what_the_standard_library_takes_for_it() {
    let mut c = 0u32;
    while c <= 0x10ffff {
        if let Some(ch) = char::from_u32(c) {
            assert_eq!(tunneld::text::white(ch), ch.is_whitespace());
        }
        c += 1;
    }
}

#[test]
fn trimming() {
    for s in ["", " ", "a", " a", "a ", "\t a b \r\n", "\u{3000}x\u{85}"] {
        assert_eq!(text_of(trimmed(&cs(s))), s.trim());
        assert_eq!(text_of(without_end(&cs(s), ' ')), s.trim_end_matches(' '));
    }
}
