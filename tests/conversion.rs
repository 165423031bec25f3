use doc2quarto::{callout_type, convert_admonitions, convert_content, convert_frontmatter};

#[test]
fn frontmatter_renames_position_and_keeps_title() {
    let result = convert_frontmatter(&["title: \"Test\"", "sidebar_position: 1"]);
    assert_eq!(result, "title: \"Test\"\norder: 1\n");
    assert!(result.contains("order: 1"));
    assert!(result.lines().any(|l| l == "title: \"Test\""));
}

#[test]
fn frontmatter_position_without_colon() {
    assert_eq!(convert_frontmatter(&["sidebar_position"]), "order: \n");
}

#[test]
fn frontmatter_position_with_padding() {
    assert_eq!(convert_frontmatter(&["  sidebar_position :   7  "]), "order: 7\n");
}

#[test]
fn frontmatter_position_value_is_all_after_first_colon() {
    assert_eq!(convert_frontmatter(&["sidebar_position: 1:2"]), "order: 1:2\n");
}

#[test]
fn frontmatter_keeps_existing_order_key() {
    assert_eq!(
        convert_frontmatter(&["order: 5", "sidebar_position: 2"]),
        "order: 5\norder: 2\n"
    );
}

#[test]
fn frontmatter_keeps_other_lines_verbatim() {
    assert_eq!(
        convert_frontmatter(&["tags:   [a, b]  ", "", "  indented: x"]),
        "tags:   [a, b]  \n\n  indented: x\n"
    );
}

#[test]
fn frontmatter_empty_block() {
    assert_eq!(convert_frontmatter(&[]), "");
}

#[test]
fn admonition_note_with_title() {
    assert_eq!(convert_admonitions(":::note Hello"), ":::: {.callout-note}\n## Hello");
}

#[test]
fn admonition_info_without_title() {
    assert_eq!(convert_admonitions(":::info"), ":::: {note}");
}

#[test]
fn admonition_closing_marker() {
    assert_eq!(convert_admonitions(":::"), "::::");
}

#[test]
fn admonition_plain_text_unchanged() {
    assert_eq!(convert_admonitions("plain text"), "plain text");
    assert_eq!(convert_admonitions("warning text"), "warning text");
}

#[test]
fn admonition_type_table() {
    assert_eq!(convert_admonitions(":::tip"), ":::: {tip}");
    assert_eq!(convert_admonitions(":::caution"), ":::: {caution}");
    assert_eq!(convert_admonitions(":::warning"), ":::: {warning}");
    assert_eq!(convert_admonitions(":::danger"), ":::: {important}");
    assert_eq!(convert_admonitions(":::danger Stop"), ":::: {.callout-important}\n## Stop");
    assert_eq!(convert_admonitions(":::caution Careful now"), ":::: {.callout-caution}\n## Careful now");
}

#[test]
fn admonition_type_is_case_insensitive() {
    assert_eq!(convert_admonitions(":::DANGER"), ":::: {important}");
    assert_eq!(convert_admonitions(":::Info Read"), ":::: {.callout-note}\n## Read");
}

#[test]
fn admonition_unknown_type_keeps_casing() {
    assert_eq!(convert_admonitions(":::Custom Title"), ":::: {.callout-Custom}\n## Title");
    assert_eq!(convert_admonitions(":::my_type2"), ":::: {my_type2}");
}

#[test]
fn admonition_title_is_trimmed() {
    assert_eq!(convert_admonitions(":::tip   Quick  "), ":::: {.callout-tip}\n## Quick");
    assert_eq!(convert_admonitions(":::note   "), ":::: {note}");
}

#[test]
fn admonition_needs_word_right_after_colons() {
    assert_eq!(convert_admonitions("::: note"), "::: note");
    assert_eq!(convert_admonitions(" :::"), " :::");
    assert_eq!(convert_admonitions("::: "), "::: ");
    assert_eq!(convert_admonitions("::"), "::");
    assert_eq!(convert_admonitions(""), "");
}

#[test]
fn admonition_unicode_word_type() {
    assert_eq!(convert_admonitions(":::ñota Hola"), ":::: {.callout-ñota}\n## Hola");
}

#[test]
fn admonition_second_pass_changes_nothing() {
    for line in [":::note Hello", ":::info", ":::", "plain", ":::Custom X", "::::"] {
        let once = convert_admonitions(line);
        assert_eq!(convert_admonitions(&once), once);
    }
}

#[test]
fn callout_type_mapping() {
    assert_eq!(callout_type("Info", "info"), "note");
    assert_eq!(callout_type("DANGER", "danger"), "important");
    assert_eq!(callout_type("tip", "tip"), "tip");
    assert_eq!(callout_type("Custom", "custom"), "Custom");
}

#[test]
fn content_end_to_end() {
    let doc = "---\ntitle: X\nsidebar_position: 2\n---\n:::tip Quick\nbody\n:::\n";
    assert_eq!(
        convert_content(doc),
        "---\ntitle: X\norder: 2\n:::: {.callout-tip}\n## Quick\nbody\n::::\n"
    );
}

#[test]
fn content_unterminated_frontmatter_is_dropped() {
    assert_eq!(convert_content("intro\n---\ntitle: X\nsidebar_position: 2\n"), "intro\n");
    assert_eq!(convert_content("---\ntitle: X"), "");
}

#[test]
fn content_body_lines_follow_admonition_rules() {
    let doc = ":::note Hi\nsome text\n:::";
    let mut expected = String::new();
    for line in doc.lines() {
        expected.push_str(&convert_admonitions(line));
        expected.push('\n');
    }
    assert_eq!(convert_content(doc), expected);
    assert_eq!(expected, ":::: {.callout-note}\n## Hi\nsome text\n::::\n");
}

#[test]
fn content_without_frontmatter() {
    assert_eq!(convert_content("a\nb"), "a\nb\n");
    assert_eq!(convert_content(""), "");
    assert_eq!(convert_content("\n\n"), "\n\n");
}

#[test]
fn content_handles_crlf() {
    assert_eq!(convert_content("a\r\n:::\r\nb\r"), "a\n::::\nb\r\n");
}

#[test]
fn content_second_frontmatter_block() {
    assert_eq!(
        convert_content("---\na: 1\n---\nx\n---\nsidebar_position: 3\n---\n"),
        "---\na: 1\nx\n---\norder: 3\n"
    );
}
