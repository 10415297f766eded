use unveil_rs::stylematter::split_stylematter;

fn some(text: &str) -> Option<String> {
    Some(text.to_string())
}

#[test]
fn text_without_fence_is_its_own_body() {
    assert_eq!(split_stylematter("Hello"), (None, "Hello".to_string()));
    assert_eq!(split_stylematter(""), (None, String::new()));
    assert_eq!(
        split_stylematter("  \n# Title\n+++\nlate\n+++\n"),
        (None, "  \n# Title\n+++\nlate\n+++\n".to_string())
    );
}

#[test]
fn fenced_block_is_split_off() {
    assert_eq!(split_stylematter("+++\nA\n+++\nB"), (some("A\n"), "B".to_string()));
}

#[test]
fn white_space_may_stand_before_the_fence() {
    assert_eq!(
        split_stylematter(" \t\r\n\u{0B}\u{0C}+++\ncolor: red;\n+++\n# Title"),
        (some("color: red;\n"), "# Title".to_string())
    );
}

#[test]
fn other_white_space_before_the_fence_does_not_count() {
    let text = "\u{a0}+++\nA\n+++\nB";
    assert_eq!(split_stylematter(text), (None, text.to_string()));
}

#[test]
fn carriage_returns_belong_to_the_line_ends() {
    assert_eq!(
        split_stylematter("+++\r\na\r\n+++\r\nb"),
        (some("a\r\n"), "b".to_string())
    );
    assert_eq!(split_stylematter("+++\nA\n+++\rB"), (some("A\n"), "B".to_string()));
}

#[test]
fn fence_without_line_end_opens_nothing() {
    for text in ["+++ \nA\n+++\nB", "+++", "+++A\n+++\n", "+++\r\rA\n+++\n", "x+++\nA\n+++\nB"] {
        assert_eq!(split_stylematter(text), (None, text.to_string()));
    }
}

#[test]
fn fence_without_closing_fence_opens_nothing() {
    let text = "+++\ncolor: red;\n++\nbody";
    assert_eq!(split_stylematter(text), (None, text.to_string()));
}

#[test]
fn first_fence_in_the_block_closes_it() {
    assert_eq!(split_stylematter("+++\na+++b"), (some("a"), "b".to_string()));
    assert_eq!(
        split_stylematter("+++\na\n+++\nb\n+++\nc"),
        (some("a\n"), "b\n+++\nc".to_string())
    );
    assert_eq!(split_stylematter("+++\n++++"), (some(""), "+".to_string()));
}

#[test]
fn empty_block_and_empty_body() {
    assert_eq!(split_stylematter("+++\n+++"), (some(""), String::new()));
    assert_eq!(split_stylematter("+++\n+++\n"), (some(""), String::new()));
    assert_eq!(split_stylematter("+++\n+++\n\nx"), (some(""), "\nx".to_string()));
}

#[test]
fn block_may_hold_any_characters() {
    assert_eq!(
        split_stylematter("+++\nh1 { content: \"é→\"; }\n\n+++\nça"),
        (some("h1 { content: \"é→\"; }\n\n"), "ça".to_string())
    );
}

/// The splitter, written as a pattern.
fn split_by_pattern(pattern: &regex::Regex, text: &str) -> (Option<String>, String) {
    match pattern.captures(text) {
        Some(caps) => (Some(caps[1].to_string()), caps[2].to_string()),
        None => (None, text.to_string()),
    }
}

#[test]
fn splitter_agrees_with_the_fence_pattern() {
    let pattern = regex::Regex::new(
        r"^[[:space:]]*\+\+\+\r?\n((?s).*?(?-s))\+\+\+\r?\n?((?s).*(?-s))$",
    )
    .unwrap();
    let pieces = ["", " ", "\n", "\r", "\r\n", "\t", "+", "++", "+++", "a", "é", "\u{0B}", "\u{a0}"];
    let mut texts: Vec<String> = vec![String::new()];
    for _ in 0..3 {
        let mut longer = Vec::new();
        for text in &texts {
            for piece in pieces {
                longer.push(format!("{}{}", text, piece));
            }
        }
        longer.sort();
        longer.dedup();
        texts = longer;
    }
    let mut with_matter = 0;
    for tail in &texts {
        for head in ["", "+++\n", " +++\r\n", "+++\na\n+++", "\n+++\n+++\r"] {
            let text = format!("{}{}", head, tail);
            let split = split_stylematter(&text);
            assert_eq!(split, split_by_pattern(&pattern, &text), "on {:?}", text);
            if split.0.is_some() {
                with_matter += 1;
            }
        }
    }
    assert!(with_matter > 500);
}
