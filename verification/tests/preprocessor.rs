use unveil_rs::preprocessor::{Preprocessor, MD_CLASS_END, MD_CLASS_START, RUST_CODE_TAG};

/// An element with attributes and children, written the way the page is.
fn element(tag: &str, attributes: &[(&str, &str)], children: &str) -> String {
    let mut out = format!("<{}", tag);
    for (name, value) in attributes {
        out.push_str(&format!(" {}=\"{}\"", name, value));
    }
    out.push_str(&format!(">{}</{}>", children, tag));
    out
}

fn buttons(id: &str) -> String {
    let copy = element(
        "i",
        &[("class", "fas fa-copy bounce-in btn-copy"), ("id", id)],
        "",
    );
    let play = element(
        "i",
        &[
            ("class", "fas fa-play btn-playpen"),
            ("onclick", "play_playpen(this.id)"),
            ("id", id),
        ],
        "",
    );
    element("div", &[("class", "btn-code")], &format!("{}{}", copy, play))
}

#[test]
fn should_insert_playpen_buttons() {
    let input = format!("{}let a = 1;</code>", RUST_CODE_TAG);

    let output = Preprocessor::insert_playpen_button(&input);

    let expected = format!(
        "{}{}",
        buttons("rust-code-block-0"),
        element("code", &[("class", "language-rust")], "let a = 1;")
    );

    assert_eq!(output, expected);
}

#[test]
fn should_insert_playpen_buttons_on_multiple_block() {
    let input = format!(
        "{}let a = 1;</code><p>Foo</p>{}let a = 1;</code>",
        RUST_CODE_TAG, RUST_CODE_TAG
    );

    let output = Preprocessor::insert_playpen_button(&input);

    let expected = format!(
        "{}{}{}{}{}",
        buttons("rust-code-block-0"),
        element("code", &[("class", "language-rust")], "let a = 1;"),
        element("p", &[], "Foo"),
        buttons("rust-code-block-1"),
        element("code", &[("class", "language-rust")], "let a = 1;")
    );

    assert_eq!(output, expected);
}

#[test]
fn should_replace_markdown_classes_right_with_html_ones() {
    let input = format!(
        "<p>Html content{}super-class{}</p>",
        MD_CLASS_START, MD_CLASS_END
    );

    let output = Preprocessor::insert_user_class(&input);

    let expected = element("p", &[("class", "super-class")], "Html content");

    assert_eq!(output, expected);
}

#[test]
fn should_replace_markdown_classes_left_with_html_ones() {
    let input = format!(
        "<p>{}super-class{}Html content</p>",
        MD_CLASS_START, MD_CLASS_END
    );

    let output = Preprocessor::insert_user_class(&input);

    let expected = element("p", &[("class", "super-class")], "Html content");

    assert_eq!(output, expected);
}

#[test]
fn playpen_button_is_written_out_in_full() {
    let output = Preprocessor::insert_playpen_button("<pre><code class=\"language-rust\">x</code></pre>");
    assert_eq!(
        output,
        "<pre><div class=\"btn-code\"><i class=\"fas fa-copy bounce-in btn-copy\" id=\"rust-code-block-0\"></i><i class=\"fas fa-play btn-playpen\" onclick=\"play_playpen(this.id)\" id=\"rust-code-block-0\"></i></div><code class=\"language-rust\">x</code></pre>"
    );
}

#[test]
fn class_injection_of_the_documented_example() {
    let output =
        Preprocessor::insert_user_class("<p>Html content[class=&quot;super-class&quot;]</p>");
    assert_eq!(output, "<p class=\"super-class\">Html content</p>");
}

#[test]
fn text_without_code_blocks_gets_no_buttons() {
    assert_eq!(Preprocessor::insert_playpen_button(""), "");
    assert_eq!(
        Preprocessor::insert_playpen_button("<p>é</p><code class=\"language-c\">x</code>"),
        "<p>é</p><code class=\"language-c\">x</code>"
    );
}

#[test]
fn buttons_are_numbered_in_document_order() {
    let blocks = 12;
    let mut input = String::new();
    let mut expected = String::new();
    for n in 0..blocks {
        input.push_str(&format!("<p>ü{}</p>{}b</code>", n, RUST_CODE_TAG));
        expected.push_str(&format!(
            "<p>ü{}</p>{}{}b</code>",
            n,
            buttons(&format!("rust-code-block-{}", n)),
            RUST_CODE_TAG
        ));
    }
    let output = Preprocessor::insert_playpen_button(&input);
    assert_eq!(output, expected);
    assert_eq!(output.matches(RUST_CODE_TAG).count(), blocks);
    assert_eq!(output.matches("<div class=\"btn-code\">").count(), blocks);
    assert!(output.contains("id=\"rust-code-block-10\""));
    assert!(output.contains("id=\"rust-code-block-11\""));
    assert!(!output.contains("id=\"rust-code-block-12\""));
}

#[test]
fn adjacent_code_tags_each_get_buttons() {
    let input = format!("{}{}", RUST_CODE_TAG, RUST_CODE_TAG);
    assert_eq!(
        Preprocessor::insert_playpen_button(&input),
        format!(
            "{}{}{}{}",
            buttons("rust-code-block-0"),
            RUST_CODE_TAG,
            buttons("rust-code-block-1"),
            RUST_CODE_TAG
        )
    );
}

#[test]
fn text_without_markers_is_left_alone() {
    let injection = Preprocessor::inject_user_classes("<p>Hello [class] &quot;]</p>");
    assert_eq!(injection.html, "<p>Hello [class] &quot;]</p>");
    assert_eq!(injection.unmatched, None);
    assert_eq!(injection.diagnostic(), None);
}

#[test]
fn unmatched_marker_is_kept_and_reported_once() {
    let input = "<p>a[class=&quot;x b</p><p>[class=&quot;y</p>";
    let injection = Preprocessor::inject_user_classes(input);
    assert_eq!(injection.html, input);
    assert_eq!(injection.unmatched, Some(4));
    assert_eq!(
        injection.diagnostic(),
        Some("Unmatched class attribute".to_string())
    );
    assert_eq!(Preprocessor::insert_user_class(input), input);
}

#[test]
fn markers_before_an_unmatched_one_are_still_moved() {
    let input = "<p>é[class=&quot;k&quot;]b[class=&quot;z</p>";
    let injection = Preprocessor::inject_user_classes(input);
    assert_eq!(injection.html, "<p class=\"k\">éb[class=&quot;z</p>");
    assert_eq!(injection.unmatched, Some(26));
}

#[test]
fn marker_without_a_tag_before_it_stays() {
    let input = "[class=&quot;x&quot;]<p>hi[class=&quot;y&quot;]</p>";
    let injection = Preprocessor::inject_user_classes(input);
    assert_eq!(injection.html, "[class=&quot;x&quot;]<p class=\"y\">hi</p>");
    assert_eq!(injection.unmatched, None);
}

#[test]
fn each_marker_goes_into_the_tag_before_it() {
    assert_eq!(
        Preprocessor::insert_user_class(
            "<h1>T[class=&quot;a&quot;]</h1><p>x[class=&quot;b c&quot;]</p>"
        ),
        "<h1 class=\"a\">T</h1><p class=\"b c\">x</p>"
    );
}

#[test]
fn two_markers_in_one_tag_give_two_attributes() {
    assert_eq!(
        Preprocessor::insert_user_class("<p>[class=&quot;a&quot;][class=&quot;b&quot;]x</p>"),
        "<p class=\"a\" class=\"b\">x</p>"
    );
}

#[test]
fn marker_with_an_empty_name() {
    assert_eq!(
        Preprocessor::insert_user_class("<p>[class=&quot;&quot;]x</p>"),
        "<p class=\"\">x</p>"
    );
}

#[test]
fn closing_marker_must_follow_the_whole_opening_marker() {
    let input = "<p>[class=&quot;]x</p>";
    let injection = Preprocessor::inject_user_classes(input);
    assert_eq!(injection.html, input);
    assert_eq!(injection.unmatched, Some(3));
}

#[test]
fn marker_inside_a_consumed_name_is_not_looked_at_again() {
    assert_eq!(
        Preprocessor::insert_user_class("<p>[class=&quot;a[class=&quot;b&quot;]c&quot;]</p>"),
        "<p class=\"a[class=&quot;b\">c&quot;]</p>"
    );
}

/// Button insertion by the search of the standard library, on bytes.
fn buttons_by_byte_search(html: &str) -> String {
    let mut result = String::new();
    let mut last_end = 0;
    for (count, (start, part)) in html.match_indices(RUST_CODE_TAG).enumerate() {
        result.push_str(&html[last_end..start]);
        result.push_str(&buttons(&format!("rust-code-block-{}", count)));
        result.push_str(RUST_CODE_TAG);
        last_end = start + part.len();
    }
    result.push_str(&html[last_end..]);
    result
}

#[test]
fn buttons_agree_with_a_search_on_bytes() {
    let pieces = [
        "",
        "<",
        "<code",
        "<code class=\"language-rust\"",
        ">",
        RUST_CODE_TAG,
        "é→",
        "</code>",
        "<code class=\"language-rust\"><code class=\"language-rust\">",
    ];
    let mut texts: Vec<String> = vec![String::new()];
    for _ in 0..4 {
        let mut longer = Vec::new();
        for text in &texts {
            for piece in pieces {
                longer.push(format!("{}{}", text, piece));
            }
        }
        longer.sort();
        longer.dedup();
        texts = longer;
    }
    assert!(texts.len() > 1000);
    for text in &texts {
        assert_eq!(
            Preprocessor::insert_playpen_button(text),
            buttons_by_byte_search(text),
            "on {:?}",
            text
        );
    }
}
