use sitegen::markdown::markdown_to_html;

#[test]
fn heading_becomes_h1() {
    assert_eq!(markdown_to_html("# Hello"), "<h1>Hello</h1>\n");
}

#[test]
fn paragraph_with_inline_markup() {
    assert_eq!(
        markdown_to_html("some *emphasis* and **strong** text"),
        "<p>some <em>emphasis</em> and <strong>strong</strong> text</p>\n"
    );
}

#[test]
fn strikethrough_is_enabled() {
    assert_eq!(markdown_to_html("~~gone~~"), "<p><del>gone</del></p>\n");
}

#[test]
fn tables_are_enabled() {
    assert_eq!(
        markdown_to_html("| a | b |\n|---|---|\n| 1 | 2 |"),
        "<table><thead><tr><th>a</th><th>b</th></tr></thead><tbody>\n<tr><td>1</td><td>2</td></tr>\n</tbody></table>\n"
    );
}

#[test]
fn other_extensions_stay_off() {
    assert_eq!(markdown_to_html("- [ ] task"), "<ul>\n<li>[ ] task</li>\n</ul>\n");
}

#[test]
fn empty_body_gives_empty_fragment() {
    assert_eq!(markdown_to_html(""), "");
}

#[test]
fn malformed_markup_comes_out_as_text() {
    assert_eq!(markdown_to_html("**never closed"), "<p>**never closed</p>\n");
    assert_eq!(markdown_to_html("[link](unfinished"), "<p>[link](unfinished</p>\n");
}

#[test]
fn conversion_is_repeatable() {
    let body = "# Title\n\n| a |\n|---|\n| ~~b~~ |\n\ntext with `code`\n";
    let first = markdown_to_html(body);
    let second = markdown_to_html(body);
    assert_eq!(first, second);
    assert_ne!(first, body);
}
