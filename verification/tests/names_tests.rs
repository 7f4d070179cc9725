use tunneld::names::{
    compose_subdomain, generate_subdomain, wordlist, WordlistTooShort, MIN_WORDS,
};

/// A text with `n` words, one on a line.
fn numbered(n: usize) -> String {
    let mut s = String::new();
    for i in 0..n {
        s.push_str(&format!("w{}\n", i));
    }
    s
}

fn words(list: &[&str]) -> Vec<String> {
    list.iter().map(|w| w.to_string()).collect()
}

#[test]
fn list_with_the_fewest_words() {
    let list = wordlist(&numbered(MIN_WORDS)).unwrap_or_else(|e| panic!("{:?}", e));
    assert_eq!(list.len(), 10240);
    assert_eq!(list[0], "w0");
    assert_eq!(list[10239], "w10239");
}

#[test]
fn list_with_one_word_too_few() {
    assert_eq!(wordlist(&numbered(10239)), Err(WordlistTooShort { words: 10239 }));
    assert_eq!(wordlist(""), Err(WordlistTooShort { words: 0 }));
}

#[test]
fn white_space_and_empty_lines_do_not_count() {
    assert_eq!(
        wordlist("  alpha \r\n\n\t\nbeta\u{a0}\n \u{2003}gamma"),
        Err(WordlistTooShort { words: 3 })
    );
    let mut text = String::from("\n\n  first\t\r\n\n");
    text.push_str(&numbered(MIN_WORDS));
    text.push_str("last one");
    let list = wordlist(&text).unwrap_or_else(|e| panic!("{:?}", e));
    assert_eq!(list.len(), MIN_WORDS + 2);
    assert_eq!(list[0], "first");
    assert_eq!(list[1], "w0");
    assert_eq!(list[MIN_WORDS + 1], "last one");
}

#[test]
fn four_words_are_joined_by_hyphens() {
    let list = words(&["flower", "geek", "episode", "thirst"]);
    assert_eq!(compose_subdomain(&list, (0, 1, 2, 3)), "flower-geek-episode-thirst");
    assert_eq!(compose_subdomain(&list, (3, 3, 0, 1)), "thirst-thirst-flower-geek");
}

#[test]
fn different_picks_make_different_subdomains() {
    let list = words(&["a", "b", "c"]);
    let mut seen: Vec<String> = Vec::new();
    for i in 0..81 {
        let s = compose_subdomain(&list, (i / 27, i / 9 % 3, i / 3 % 3, i % 3));
        assert!(!seen.contains(&s));
        seen.push(s);
    }
    assert_eq!(seen.len(), 81);
}

#[test]
fn drawn_subdomain_has_four_words_of_the_list() {
    let list = words(&["alpha", "beta", "gamma"]);
    for _ in 0..50 {
        let s = generate_subdomain(&list);
        let parts: Vec<&str> = s.split('-').collect();
        assert_eq!(parts.len(), 4);
        for p in parts {
            assert!(list.iter().any(|w| w == p));
        }
        assert!(!s.contains('.'));
    }
}

#[test]
fn drawn_subdomains_vary() {
    let list = wordlist(&numbered(MIN_WORDS)).unwrap_or_else(|e| panic!("{:?}", e));
    let first = generate_subdomain(&list);
    assert!((0..5).any(|_| generate_subdomain(&list) != first));
}

#[test]
fn enough_combinations() {
    let n = MIN_WORDS as u64;
    assert!(n * n * n * n >= 10_000_000_000_000_000);
}
