use rss_reader::refs::{
    extract_image_urls, first_capture, lookup, render_tag, replace_html_img_tags, rewrite,
    substitute, urls_of, weave_texts, Capture, Replacement,
};

fn mapping(pairs: &[(&str, &str)]) -> Vec<Replacement> {
    pairs
        .iter()
        .map(|(url, local)| Replacement { url: url.to_string(), local: local.to_string() })
        .collect()
}

fn replaced(text: &str, from: &str, to: &str) -> String {
    let text: Vec<char> = text.chars().collect();
    let from: Vec<char> = from.chars().collect();
    let to: Vec<char> = to.chars().collect();
    substitute(&text, &from, &to).into_iter().collect()
}

#[test]
fn rewrite_turns_a_tag_into_bracket_form() {
    let map = mapping(&[("https://x/a.png", "/images/H.png")]);
    assert_eq!(rewrite(r#"<img src="https://x/a.png" alt="A">"#, &map), "![A](/images/H.png)");
}

#[test]
fn rewrite_replaces_the_target_of_bracket_form() {
    let map = mapping(&[("https://x/a.png", "/images/H.png")]);
    assert_eq!(rewrite("![A](https://x/a.png)", &map), "![A](/images/H.png)");
}

#[test]
fn rewrite_keeps_text_around_references() {
    let map = mapping(&[("https://x/a.png", "/images/H.png")]);
    let text = "before <img alt='A' src='https://x/a.png'> middle ![B](https://x/a.png) after";
    assert_eq!(
        rewrite(text, &map),
        "before ![A](/images/H.png) middle ![B](/images/H.png) after"
    );
}

#[test]
fn rewrite_without_mapping_keeps_remote_urls() {
    let map = mapping(&[]);
    assert_eq!(
        rewrite(r#"x <img src="https://x/a.png"> ![B](https://y/b.gif)"#, &map),
        "x ![](https://x/a.png) ![B](https://y/b.gif)"
    );
}

#[test]
fn rewrite_is_coarse_about_urls_inside_other_text() {
    let map = mapping(&[("https://x/a.png", "/images/H.png")]);
    assert_eq!(
        rewrite("see https://x/a.png.bak and [link](https://x/a.png)", &map),
        "see /images/H.png.bak and [link](/images/H.png)"
    );
}

#[test]
fn rewrite_applies_entries_in_order() {
    let map = mapping(&[("https://x/a", "L1"), ("L1.png", "L2")]);
    assert_eq!(rewrite("![A](https://x/a.png)", &map), "![A](L2)");
}

#[test]
fn rewrite_of_text_without_references_changes_nothing() {
    let map = mapping(&[("https://x/a.png", "/images/H.png")]);
    assert_eq!(rewrite("plain text, no images", &map), "plain text, no images");
    assert_eq!(rewrite("", &map), "");
}

#[test]
fn replace_html_img_tags_keeps_source_when_unmapped() {
    let map = mapping(&[("https://x/other.png", "/images/O.png")]);
    assert_eq!(
        replace_html_img_tags(r#"<img src="https://x/a.png" alt="A">"#, &map),
        "![A](https://x/a.png)"
    );
}

#[test]
fn replace_html_img_tags_without_src_or_alt() {
    let map = mapping(&[]);
    assert_eq!(replace_html_img_tags("a<img>b", &map), "a![]()b");
    assert_eq!(replace_html_img_tags("<img alt=\"only\">", &map), "![only]()");
}

#[test]
fn replace_html_img_tags_handles_several_tags() {
    let map = mapping(&[("u1", "l1"), ("u2", "l2")]);
    assert_eq!(
        replace_html_img_tags("<img src='u1'><img src='u2' alt='two'>tail<img src='u3'>", &map),
        "![](l1)![two](l2)tail![](u3)"
    );
}

#[test]
fn replace_html_img_tags_leaves_bracket_form_alone() {
    let map = mapping(&[("u1", "l1")]);
    assert_eq!(replace_html_img_tags("![A](u1)", &map), "![A](u1)");
}

#[test]
fn replace_html_img_tags_keeps_text_beyond_ascii() {
    let map = mapping(&[("ü", "ö")]);
    assert_eq!(replace_html_img_tags("é<img src='ü' alt='ñ'>✓", &map), "é![ñ](ö)✓");
}

#[test]
fn extract_image_urls_finds_both_forms_once_each() {
    let text = concat_lines(&[
        "![one](https://x/1.png)",
        r#"<img src="https://x/2.png" alt="two">"#,
        "![again](https://x/2.png)",
        "<img alt='three' src='https://x/3.png'>",
    ]);
    let mut urls = extract_image_urls(&text);
    assert_eq!(urls.len(), 3);
    urls.sort();
    assert_eq!(urls, vec!["https://x/1.png", "https://x/2.png", "https://x/3.png"]);
}

fn concat_lines(lines: &[&str]) -> String {
    lines.join("\n")
}

#[test]
fn extract_image_urls_keeps_order_of_first_occurrence() {
    let text = "<img src='t1'> ![a](b2) ![a](b1) <img src='b1'> <img src='t2'> ![c](b2)";
    assert_eq!(extract_image_urls(text), vec!["b2", "b1", "t1", "t2"]);
}

#[test]
fn extract_image_urls_of_text_without_images() {
    assert_eq!(extract_image_urls("no [link](x) here"), Vec::<String>::new());
    assert_eq!(extract_image_urls(""), Vec::<String>::new());
    assert_eq!(extract_image_urls("![empty]()"), Vec::<String>::new());
    assert_eq!(extract_image_urls("<img alt='no source'>"), Vec::<String>::new());
}

#[test]
fn extract_image_urls_takes_the_whole_target() {
    assert_eq!(
        extract_image_urls(r#"![a](https://x/1.png "title")"#),
        vec![r#"https://x/1.png "title""#]
    );
}

#[test]
fn substitute_replaces_every_occurrence() {
    assert_eq!(replaced("abcabc", "bc", "X"), "aXaX");
    assert_eq!(replaced("aaaa", "aa", "b"), "bb");
    assert_eq!(replaced("aaa", "aa", "b"), "ba");
    assert_eq!(replaced("abc", "abc", ""), "");
    assert_eq!(replaced("abc", "abcd", "X"), "abc");
    assert_eq!(replaced("", "a", "X"), "");
    assert_eq!(replaced("xay", "a", "aa"), "xaay");
}

#[test]
fn substitute_with_empty_pattern_changes_nothing() {
    assert_eq!(replaced("abc", "", "X"), "abc");
}

#[test]
fn substitute_agrees_with_str_replace_on_patterns_that_are_not_empty() {
    let cases = [
        ("the cat sat on the mat", "at", "og"),
        ("ababab", "aba", "x"),
        ("héllo wörld", "ö", "oe"),
        ("aaaaa", "aa", "a"),
        ("no match", "zzz", "y"),
    ];
    for (text, from, to) in cases {
        assert_eq!(replaced(text, from, to), text.replace(from, to));
    }
}

#[test]
fn lookup_gives_the_first_entry_for_a_url() {
    let map = mapping(&[("a", "1"), ("b", "2"), ("a", "3")]);
    assert_eq!(lookup(&map, "a"), Some("1"));
    assert_eq!(lookup(&map, "b"), Some("2"));
    assert_eq!(lookup(&map, "c"), None);
    assert_eq!(lookup(&mapping(&[]), "a"), None);
}

fn capture(whole: &str, group: Option<&str>) -> Capture {
    Capture { whole: whole.to_string(), group: group.map(|g| g.to_string()) }
}

fn texts(items: &[&str]) -> Vec<String> {
    items.iter().map(|t| t.to_string()).collect()
}

#[test]
fn urls_of_lists_each_target_once() {
    let bracket = vec![capture("![a](u1)", Some("u1")), capture("x", None), capture("![b](u2)", Some("u2"))];
    let tags = vec![capture("<img src='u2'>", Some("u2")), capture("<img src='u3'>", Some("u3"))];
    assert_eq!(urls_of(&bracket, &tags), vec!["u1", "u2", "u3"]);
    assert_eq!(urls_of(&tags, &bracket), vec!["u2", "u3", "u1"]);
    assert_eq!(urls_of(&vec![], &vec![]), Vec::<String>::new());
}

#[test]
fn first_capture_is_the_group_of_the_first_match() {
    assert_eq!(first_capture(&vec![capture("src='a'", Some("a")), capture("src='b'", Some("b"))]), "a");
    assert_eq!(first_capture(&vec![capture("x", None), capture("src='b'", Some("b"))]), "");
    assert_eq!(first_capture(&vec![]), "");
}

#[test]
fn render_tag_maps_the_source() {
    let map = mapping(&[("https://x/a.png", "/images/H.png")]);
    assert_eq!(render_tag("A", "https://x/a.png", &map), "![A](/images/H.png)");
    assert_eq!(render_tag("A", "https://x/b.png", &map), "![A](https://x/b.png)");
    assert_eq!(render_tag("", "", &map), "![]()");
}

#[test]
fn weave_texts_puts_inserts_between_pieces() {
    assert_eq!(weave_texts(&texts(&["a", "b", "c"]), &texts(&["1", "2"])), "a1b2c");
    assert_eq!(weave_texts(&texts(&["only"]), &texts(&[])), "only");
    assert_eq!(weave_texts(&texts(&["", ""]), &texts(&["x"])), "x");
    assert_eq!(weave_texts(&texts(&[]), &texts(&[])), "");
}

#[test]
fn weave_texts_of_lists_that_do_not_fit() {
    assert_eq!(weave_texts(&texts(&["a", "b"]), &texts(&["1", "2"])), "1a2b");
    assert_eq!(weave_texts(&texts(&[]), &texts(&["1"])), "");
    assert_eq!(weave_texts(&texts(&["a", "b", "c"]), &texts(&["1"])), "a1c");
}
