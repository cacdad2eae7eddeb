use areweguiyet_cli::text::{
    chars_of, copy_opt, copy_texts, ends_with, join, order_of, same_opt_text, same_text, TextOrder,
};

#[test]
fn chars_of_lists_every_character() {
    assert_eq!(chars_of("héllo"), vec!['h', 'é', 'l', 'l', 'o']);
    assert_eq!(chars_of(""), Vec::<char>::new());
}

#[test]
fn order_of_follows_the_dictionary() {
    assert_eq!(order_of("apple", "banana"), TextOrder::Before);
    assert_eq!(order_of("banana", "apple"), TextOrder::After);
    assert_eq!(order_of("egui", "egui"), TextOrder::Same);
}

#[test]
fn order_of_puts_a_prefix_first() {
    assert_eq!(order_of("gtk", "gtk4"), TextOrder::Before);
    assert_eq!(order_of("gtk4", "gtk"), TextOrder::After);
    assert_eq!(order_of("", "a"), TextOrder::Before);
    assert_eq!(order_of("", ""), TextOrder::Same);
}

#[test]
fn order_of_goes_by_character_code() {
    assert_eq!(order_of("Zed", "azul"), TextOrder::Before);
    assert_eq!(order_of("a", "é"), TextOrder::Before);
    assert_eq!(order_of("é", "z"), TextOrder::After);
}

#[test]
fn order_of_agrees_with_the_order_of_str() {
    let words = ["", "a", "ab", "b", "B", "druid", "egui", "é", "iced", "Iced", "slint-ui"];
    for a in words {
        for b in words {
            let expected = match a.cmp(b) {
                std::cmp::Ordering::Less => TextOrder::Before,
                std::cmp::Ordering::Equal => TextOrder::Same,
                std::cmp::Ordering::Greater => TextOrder::After,
            };
            assert_eq!(order_of(a, b), expected, "{a:?} against {b:?}");
        }
    }
}

#[test]
fn same_text_compares_whole_strings() {
    assert!(same_text("iced", "iced"));
    assert!(!same_text("iced", "iced "));
    assert!(!same_text("iced", "Iced"));
    assert!(same_text("", ""));
}

#[test]
fn same_opt_text_tells_absent_from_empty() {
    let none: Option<String> = None;
    assert!(same_opt_text(&none, &None));
    assert!(same_opt_text(&Some("x".to_string()), &Some("x".to_string())));
    assert!(!same_opt_text(&Some("x".to_string()), &Some("y".to_string())));
    assert!(!same_opt_text(&Some(String::new()), &None));
    assert!(!same_opt_text(&None, &Some(String::new())));
}

#[test]
fn copies_keep_the_text() {
    assert_eq!(copy_opt(&Some("docs".to_string())), Some("docs".to_string()));
    assert_eq!(copy_opt(&None), None);
    let tags = vec!["bindings".to_string(), "gtk".to_string()];
    assert_eq!(copy_texts(&tags), tags);
    assert_eq!(copy_texts(&Vec::new()), Vec::<String>::new());
}

#[test]
fn join_puts_the_second_behind_the_first() {
    assert_eq!(join("/newsfeed/", "a.html"), "/newsfeed/a.html");
    assert_eq!(join("", "x"), "x");
    assert_eq!(join("x", ""), "x");
}

#[test]
fn ends_with_looks_at_the_end_only() {
    assert!(ends_with("post.md", ".md"));
    assert!(!ends_with("post.md.txt", ".md"));
    assert!(!ends_with("md", ".md"));
    assert!(ends_with(".md", ".md"));
    assert!(ends_with("anything", ""));
    assert!(ends_with("über.md", ".md"));
}
